//! What a module holds under a name: code to interpret, or a host callback.

use crate::instruction::{code_view, Code, Op};
use crate::value::{values_view, Value, ValueModel};
use vstd::prelude::*;

verus! {

/// A callback of the host. It gets the argument list of a call and gives one
/// value back.
pub trait NativeFunction {
    /// Whether the callback can be called on `args`.
    spec fn takes(&self, args: Seq<ValueModel>) -> bool;

    /// Whether `r` is a value that the callback may give on `args`.
    spec fn gives(&self, args: Seq<ValueModel>, r: ValueModel) -> bool;

    /// The value of the function on `args`.
    fn call(&self, args: Vec<Value>) -> (r: Value)
        requires
            self.takes(values_view(args@)),
        ensures
            self.gives(values_view(args@), r@),
    ;
}

/// Every closure and every function from an argument list to a value is a
/// native function. It takes the argument lists that it requires, and gives
/// what it ensures.
impl<F: Fn(Vec<Value>) -> Value> NativeFunction for F {
    open spec fn takes(&self, args: Seq<ValueModel>) -> bool {
        forall|a: Vec<Value>| values_view(a@) == args ==> call_requires(*self, (a,))
    }

    open spec fn gives(&self, args: Seq<ValueModel>, r: ValueModel) -> bool {
        exists|a: Vec<Value>, v: Value|
            values_view(a@) == args && v@ == r && call_ensures(*self, (a,), v)
    }

    fn call(&self, args: Vec<Value>) -> (r: Value) {
        self(args)
    }
}

/// What a closure is as a native function: it takes an argument list if it
/// requires nothing that some list of that content does not meet, and it
/// gives a value if it ensures some value of that content for some such
/// list.
pub proof fn lemma_closure_is_native<F: Fn(Vec<Value>) -> Value>(f: F)
    ensures
        forall|args: Seq<ValueModel>| #[trigger]
            f.takes(args) == (forall|a: Vec<Value>|
                values_view(a@) == args ==> call_requires(f, (a,))),
        forall|args: Seq<ValueModel>, r: ValueModel| #[trigger]
            f.gives(args, r) == (exists|a: Vec<Value>, v: Value|
                values_view(a@) == args && v@ == r && call_ensures(f, (a,), v)),
{
}

/// What a callback promises: for an argument list and a value, whether the
/// callback may give that value on that list.
pub type Promise = spec_fn(Seq<ValueModel>, ValueModel) -> bool;

/// What `function` promises.
pub open spec fn promise_of(function: Box<dyn NativeFunction>) -> Promise {
    |args: Seq<ValueModel>, r: ValueModel| function.gives(args, r)
}

/// A callback of the host that can be called on every argument list.
pub struct Callback {
    function: Box<dyn NativeFunction>,
}

impl Callback {
    /// The callback takes every argument list.
    #[verifier::type_invariant]
    spec fn total(self) -> bool {
        forall|args: Seq<ValueModel>| self.function.takes(args)
    }

    /// What the callback promises.
    pub closed spec fn promise(&self) -> Promise {
        promise_of(self.function)
    }

    /// `function`, which takes every argument list, as a callback.
    pub fn new(function: Box<dyn NativeFunction>) -> (callback: Callback)
        requires
            forall|args: Seq<ValueModel>| function.takes(args),
        ensures
            callback.promise() == promise_of(function),
    {
        let callback = Callback { function };
        assert(callback.promise() =~= promise_of(function));
        callback
    }

    /// The value of the callback on `args`: one that it promises for them.
    pub fn call(&self, args: Vec<Value>) -> (r: Value)
        ensures
            (self.promise())(values_view(args@), r@),
    {
        proof {
            use_type_invariant(self);
        }
        self.function.call(args)
    }
}

/// A callable member of a module.
pub enum Function {
    /// Interpreted by the machine.
    ByteCode { name: String, code: Code },
    /// Run by the host.
    Native { name: String, function: Callback },
}

/// What a [`Function`] is. Of a callback, what it promises.
pub enum FunctionModel {
    ByteCode { name: Seq<char>, code: Seq<Op> },
    Native { name: Seq<char>, promise: Promise },
}

impl View for Function {
    type V = FunctionModel;

    open spec fn view(&self) -> FunctionModel {
        match *self {
            Function::ByteCode { name, code } => FunctionModel::ByteCode {
                name: name@,
                code: code_view(code@),
            },
            Function::Native { name, function } => FunctionModel::Native {
                name: name@,
                promise: function.promise(),
            },
        }
    }
}

} // verus!
