//! An assembler for modules: it collects the bytes of each open block and
//! splices a block into the one around it when the block ends.

use crate::byte_writer::{write_byte, write_bytes, write_i32, write_string, write_u32};
use crate::bytecode::ByteCode;
use crate::encoding::encode_op;
use crate::instruction::Op;
use crate::table::{index_of, names_of, put, Entry};
use crate::version::{VERSION_MAJOR, VERSION_MINOR, VERSION_PATCH};
use crate::wire::{block_bytes, i32_bits, string_bytes, string_fits, u32_bytes};
use vstd::prelude::*;

verus! {

/// An open block and the bytes collected for it so far.
pub enum Block {
    Loop(Vec<u8>),
    If(Vec<u8>),
    Else(Vec<u8>),
    Function(String, Vec<u8>),
}

/// What a [`Block`] is.
pub enum BlockModel {
    Loop(Seq<u8>),
    If(Seq<u8>),
    Else(Seq<u8>),
    Function(Seq<char>, Seq<u8>),
}

impl View for Block {
    type V = BlockModel;

    open spec fn view(&self) -> BlockModel {
        match self {
            Block::Loop(bytes) => BlockModel::Loop(bytes@),
            Block::If(bytes) => BlockModel::If(bytes@),
            Block::Else(bytes) => BlockModel::Else(bytes@),
            Block::Function(name, bytes) => BlockModel::Function(name@, bytes@),
        }
    }
}

impl BlockModel {
    /// The bytes collected for the block.
    pub open spec fn bytes(self) -> Seq<u8> {
        match self {
            BlockModel::Loop(bytes) => bytes,
            BlockModel::If(bytes) => bytes,
            BlockModel::Else(bytes) => bytes,
            BlockModel::Function(_, bytes) => bytes,
        }
    }

    /// The block with `bytes` in place of its bytes.
    pub open spec fn holding(self, bytes: Seq<u8>) -> BlockModel {
        match self {
            BlockModel::Loop(_) => BlockModel::Loop(bytes),
            BlockModel::If(_) => BlockModel::If(bytes),
            BlockModel::Else(_) => BlockModel::Else(bytes),
            BlockModel::Function(name, _) => BlockModel::Function(name, bytes),
        }
    }

    /// The block with `more` behind its bytes.
    pub open spec fn with(self, more: Seq<u8>) -> BlockModel {
        self.holding(self.bytes() + more)
    }
}

/// A finished function: its name and the bytes of its body.
pub type Finished = (Seq<char>, Seq<u8>);

/// The names of finished functions, one for one.
pub open spec fn finished_names(functions: Seq<Finished>) -> Seq<Seq<char>> {
    Seq::new(functions.len(), |i: int| functions[i].0)
}

/// `functions` with `code` under `name`: in the place that `name` had, or at
/// the end.
pub open spec fn registered(functions: Seq<Finished>, name: Seq<char>, code: Seq<u8>) -> Seq<
    Finished,
> {
    let at = index_of(finished_names(functions), name);
    if at < functions.len() {
        functions.update(at, (name, code))
    } else {
        functions.push((name, code))
    }
}

/// The state of a [`ModuleBuilder`].
#[verifier::ext_equal]
pub struct BuilderModel {
    /// The finished functions, in the order in which their names came up.
    pub functions: Seq<Finished>,
    /// The open blocks, innermost last.
    pub blocks: Seq<BlockModel>,
}

impl BuilderModel {
    /// With `more` behind the bytes of the innermost block.
    pub open spec fn emit(self, more: Seq<u8>) -> BuilderModel {
        BuilderModel {
            blocks: self.blocks.update(self.blocks.len() - 1, self.blocks.last().with(more)),
            ..self
        }
    }

    /// With `block` as the new innermost block.
    pub open spec fn opened(self, block: BlockModel) -> BuilderModel {
        BuilderModel { blocks: self.blocks.push(block), ..self }
    }

    /// Whether the innermost block can end: there is one, it is short enough
    /// for a length prefix, and unless it is a function there is a block
    /// around it.
    pub open spec fn can_end(self) -> bool {
        &&& self.blocks.len() > 0
        &&& self.blocks.last().bytes().len() <= u32::MAX
        &&& (self.blocks.last() is Function || self.blocks.len() >= 2)
    }

    /// With the innermost block ended. A function goes to the finished
    /// functions. Any other block goes to the end of the block around it:
    /// its opcode, the length of its bytes, its bytes.
    pub open spec fn ended(self) -> BuilderModel {
        let around = BuilderModel { blocks: self.blocks.drop_last(), ..self };
        match self.blocks.last() {
            BlockModel::Function(name, code) => BuilderModel {
                functions: registered(self.functions, name, code),
                ..around
            },
            BlockModel::Loop(bytes) => around.emit(spliced(ByteCode::Loop, bytes)),
            BlockModel::If(bytes) => around.emit(spliced(ByteCode::If, bytes)),
            BlockModel::Else(bytes) => around.emit(spliced(ByteCode::Else, bytes)),
        }
    }
}

/// A block as it stands in the block around it.
pub open spec fn spliced(opcode: ByteCode, bytes: Seq<u8>) -> Seq<u8> {
    seq![opcode.code()] + block_bytes(bytes)
}

/// A finished function as it stands in a module.
pub open spec fn function_bytes(f: Finished) -> Seq<u8> {
    seq![ByteCode::Func.code()] + u32_bytes(f.1.len() as u32) + string_bytes(f.0) + f.1
}

/// Finished functions as they stand in a module, one behind the other.
pub open spec fn functions_bytes(functions: Seq<Finished>) -> Seq<u8>
    decreases functions.len(),
{
    if functions.len() == 0 {
        Seq::empty()
    } else {
        functions_bytes(functions.drop_last()) + function_bytes(functions.last())
    }
}

/// A module as bytes: the version, then the functions.
pub open spec fn module_bytes(functions: Seq<Finished>) -> Seq<u8> {
    seq![VERSION_MAJOR, VERSION_MINOR, VERSION_PATCH] + functions_bytes(functions)
}

/// Whether the name and the body of a finished function are short enough for
/// their length prefixes.
pub open spec fn function_fits(f: Finished) -> bool {
    string_fits(f.0) && f.1.len() <= u32::MAX
}

/// What a list of entries is as finished functions.
pub open spec fn finished_of(entries: Seq<Entry<Vec<u8>>>) -> Seq<Finished> {
    Seq::new(entries.len(), |i: int| (entries[i].name@, entries[i].item@))
}

/// What a stack of blocks is.
pub open spec fn blocks_of(blocks: Seq<Block>) -> Seq<BlockModel> {
    Seq::new(blocks.len(), |i: int| blocks[i]@)
}

/// Collects the functions of a module, block by block.
pub struct ModuleBuilder {
    functions: Vec<Entry<Vec<u8>>>,
    nested_blocks: Vec<Block>,
}

impl View for ModuleBuilder {
    type V = BuilderModel;

    closed spec fn view(&self) -> BuilderModel {
        BuilderModel {
            functions: finished_of(self.functions@),
            blocks: blocks_of(self.nested_blocks@),
        }
    }
}

impl ModuleBuilder {
    /// A builder without functions and without open blocks.
    pub fn new() -> (builder: ModuleBuilder)
        ensures
            builder@ == (BuilderModel { functions: Seq::empty(), blocks: Seq::empty() }),
    {
        let builder = ModuleBuilder { functions: Vec::new(), nested_blocks: Vec::new() };
        assert(builder@ =~= (BuilderModel { functions: Seq::empty(), blocks: Seq::empty() }));
        builder
    }

    /// Opens a function called `name`.
    pub fn fn_start(&mut self, name: &str)
        ensures
            final(self)@ == old(self)@.opened(BlockModel::Function(name@, Seq::empty())),
    {
        self.nested_blocks.push(Block::Function(name.to_owned(), Vec::new()));
        assert(self@ =~= old(self)@.opened(BlockModel::Function(name@, Seq::empty())));
    }

    /// Opens a loop inside the innermost block.
    pub fn loop_start(&mut self)
        requires
            old(self)@.blocks.len() > 0,
        ensures
            final(self)@ == old(self)@.opened(BlockModel::Loop(Seq::empty())),
    {
        self.nested_blocks.push(Block::Loop(Vec::new()));
        assert(self@ =~= old(self)@.opened(BlockModel::Loop(Seq::empty())));
    }

    /// Opens the first block of an `If` inside the innermost block.
    pub fn if_start(&mut self)
        requires
            old(self)@.blocks.len() > 0,
        ensures
            final(self)@ == old(self)@.opened(BlockModel::If(Seq::empty())),
    {
        self.nested_blocks.push(Block::If(Vec::new()));
        assert(self@ =~= old(self)@.opened(BlockModel::If(Seq::empty())));
    }

    /// Opens the second block of an `If` inside the innermost block. It
    /// belongs to the `If` that ended just before.
    pub fn else_start(&mut self)
        requires
            old(self)@.blocks.len() > 0,
        ensures
            final(self)@ == old(self)@.opened(BlockModel::Else(Seq::empty())),
    {
        self.nested_blocks.push(Block::Else(Vec::new()));
        assert(self@ =~= old(self)@.opened(BlockModel::Else(Seq::empty())));
    }

    /// Puts `bytes` behind the bytes of the innermost block.
    fn emit(&mut self, bytes: &[u8])
        requires
            old(self)@.blocks.len() > 0,
        ensures
            final(self)@ == old(self)@.emit(bytes@),
    {
        let collected = self.get_current_bytecode();
        write_bytes(collected, bytes);
    }

    /// Whether the innermost block can end.
    pub fn can_end(&self) -> (r: bool)
        ensures
            r == self@.can_end(),
    {
        let depth = self.nested_blocks.len();
        if depth == 0 {
            return false;
        }
        match &self.nested_blocks[depth - 1] {
            Block::Function(_, bytes) => bytes.len() <= u32::MAX as usize,
            Block::Loop(bytes) => depth >= 2 && bytes.len() <= u32::MAX as usize,
            Block::If(bytes) => depth >= 2 && bytes.len() <= u32::MAX as usize,
            Block::Else(bytes) => depth >= 2 && bytes.len() <= u32::MAX as usize,
        }
    }

    /// How many blocks are open.
    pub fn depth(&self) -> (r: usize)
        ensures
            r == self@.blocks.len(),
    {
        self.nested_blocks.len()
    }

    /// Whether every finished function is short enough, in name and in
    /// body, to be written with its lengths in front.
    pub fn fits(&self) -> (r: bool)
        ensures
            r == (forall|i: int|
                0 <= i < self@.functions.len() ==> function_fits(self@.functions[i])),
    {
        let mut i: usize = 0;
        while i < self.functions.len()
            invariant
                i <= self.functions.len(),
                self@.functions.len() == self.functions.len(),
                forall|j: int| 0 <= j < i ==> function_fits(self@.functions[j]),
            decreases self.functions.len() - i,
        {
            let entry = &self.functions[i];
            assert(self@.functions[i as int] == (entry.name@, entry.item@));
            if entry.name.as_str().as_bytes().len() > u32::MAX as usize || entry.item.len()
                > u32::MAX as usize {
                return false;
            }
            i += 1;
        }
        true
    }

    /// Ends the innermost block.
    pub fn end(&mut self)
        requires
            old(self)@.can_end(),
        ensures
            final(self)@ == old(self)@.ended(),
    {
        let block = match self.nested_blocks.pop() {
            Some(block) => block,
            None => {
                return ;
            },
        };
        let ghost around = BuilderModel { blocks: old(self)@.blocks.drop_last(), ..old(self)@ };
        assert(self@ =~= around);
        match block {
            Block::Function(name, code) => {
                let ghost before = self.functions@;
                let ghost key = name@;
                let ghost body = code@;
                put(&mut self.functions, name, code);
                proof {
                    assert(names_of(before) =~= finished_names(finished_of(before)));
                    crate::table::lemma_first_named(before, key);
                    assert(finished_of(self.functions@) =~= registered(
                        finished_of(before),
                        key,
                        body,
                    ));
                }
            },
            Block::Loop(bytes) => {
                self.splice(ByteCode::Loop, &bytes);
            },
            Block::If(bytes) => {
                self.splice(ByteCode::If, &bytes);
            },
            Block::Else(bytes) => {
                self.splice(ByteCode::Else, &bytes);
            },
        }
    }

    /// Puts a block that ended behind the bytes of the innermost block.
    fn splice(&mut self, opcode: ByteCode, bytes: &Vec<u8>)
        requires
            old(self)@.blocks.len() > 0,
            bytes@.len() <= u32::MAX,
        ensures
            final(self)@ == old(self)@.emit(spliced(opcode, bytes@)),
    {
        let mut whole: Vec<u8> = Vec::new();
        write_byte(&mut whole, opcode.to_u8());
        write_u32(&mut whole, bytes.len() as u32);
        write_bytes(&mut whole, bytes.as_slice());
        assert(whole@ =~= spliced(opcode, bytes@));
        self.emit(whole.as_slice());
    }

    /// The innermost block, to change it.
    pub fn get_current_block(&mut self) -> (block: &mut Block)
        requires
            old(self)@.blocks.len() > 0,
        ensures
            (*block)@ == old(self)@.blocks.last(),
            final(self)@ == (BuilderModel {
                blocks: old(self)@.blocks.update(
                    old(self)@.blocks.len() - 1,
                    (*final(block))@,
                ),
                ..old(self)@
            }),
    {
        let last = self.nested_blocks.len() - 1;
        &mut self.nested_blocks[last]
    }

    /// The bytes of the innermost block, to change them.
    pub fn get_current_bytecode(&mut self) -> (bytes: &mut Vec<u8>)
        requires
            old(self)@.blocks.len() > 0,
        ensures
            bytes@ == old(self)@.blocks.last().bytes(),
            final(self)@ == (BuilderModel {
                blocks: old(self)@.blocks.update(
                    old(self)@.blocks.len() - 1,
                    old(self)@.blocks.last().holding(final(bytes)@),
                ),
                ..old(self)@
            }),
    {
        match self.get_current_block() {
            Block::Function(_, bytecode) => bytecode,
            Block::Loop(bytecode) => bytecode,
            Block::If(bytecode) => bytecode,
            Block::Else(bytecode) => bytecode,
        }
    }

    /// Puts an opcode behind the bytes of the innermost block.
    pub fn add(&mut self, bytecode: ByteCode)
        requires
            old(self)@.blocks.len() > 0,
        ensures
            final(self)@ == old(self)@.emit(seq![bytecode.code()]),
    {
        let mut bytes: Vec<u8> = Vec::new();
        write_byte(&mut bytes, bytecode.to_u8());
        self.emit(bytes.as_slice());
    }

    /// Puts a `u32` behind the bytes of the innermost block.
    pub fn add_u32(&mut self, value: u32)
        requires
            old(self)@.blocks.len() > 0,
        ensures
            final(self)@ == old(self)@.emit(u32_bytes(value)),
    {
        let mut bytes: Vec<u8> = Vec::new();
        write_u32(&mut bytes, value);
        self.emit(bytes.as_slice());
    }

    /// Puts an `i32` behind the bytes of the innermost block.
    pub fn add_i32(&mut self, value: i32)
        requires
            old(self)@.blocks.len() > 0,
        ensures
            final(self)@ == old(self)@.emit(u32_bytes(i32_bits(value))),
    {
        let mut bytes: Vec<u8> = Vec::new();
        write_i32(&mut bytes, value);
        self.emit(bytes.as_slice());
    }

    /// Puts a float, given as its binary32 bit pattern, behind the bytes of
    /// the innermost block.
    pub fn add_f32(&mut self, bits: u32)
        requires
            old(self)@.blocks.len() > 0,
        ensures
            final(self)@ == old(self)@.emit(u32_bytes(bits)),
    {
        self.add_u32(bits);
    }

    /// Puts a string behind the bytes of the innermost block.
    pub fn add_string(&mut self, value: &str)
        requires
            old(self)@.blocks.len() > 0,
            string_fits(value@),
        ensures
            final(self)@ == old(self)@.emit(string_bytes(value@)),
    {
        let mut bytes: Vec<u8> = Vec::new();
        write_string(&mut bytes, value);
        self.emit(bytes.as_slice());
    }

    /// A call of `name` in `module`.
    pub fn call(&mut self, module: &str, name: &str)
        requires
            old(self)@.blocks.len() > 0,
            string_fits(module@),
            string_fits(name@),
        ensures
            final(self)@ == old(self)@.emit(
                encode_op(Op::Call { module: module@, function: name@ }),
            ),
    {
        let mut bytes: Vec<u8> = Vec::new();
        write_byte(&mut bytes, ByteCode::Call.to_u8());
        write_string(&mut bytes, module);
        write_string(&mut bytes, name);
        assert(bytes@ =~= encode_op(Op::Call { module: module@, function: name@ }));
        self.emit(bytes.as_slice());
    }

    /// A string constant.
    pub fn push_const_string(&mut self, value: &str)
        requires
            old(self)@.blocks.len() > 0,
            string_fits(value@),
        ensures
            final(self)@ == old(self)@.emit(encode_op(Op::PushConstString { value: value@ })),
    {
        let mut bytes: Vec<u8> = Vec::new();
        write_byte(&mut bytes, ByteCode::PushConstString.to_u8());
        write_string(&mut bytes, value);
        assert(bytes@ =~= encode_op(Op::PushConstString { value: value@ }));
        self.emit(bytes.as_slice());
    }

    /// An integer constant.
    pub fn push_const_integer(&mut self, value: i32)
        requires
            old(self)@.blocks.len() > 0,
        ensures
            final(self)@ == old(self)@.emit(encode_op(Op::PushConstInteger { value })),
    {
        let mut bytes: Vec<u8> = Vec::new();
        write_byte(&mut bytes, ByteCode::PushConstInt.to_u8());
        write_i32(&mut bytes, value);
        assert(bytes@ =~= encode_op(Op::PushConstInteger { value }));
        self.emit(bytes.as_slice());
    }

    /// A float constant, given as its binary32 bit pattern.
    pub fn push_const_float(&mut self, value: u32)
        requires
            old(self)@.blocks.len() > 0,
        ensures
            final(self)@ == old(self)@.emit(encode_op(Op::PushConstFloat { value })),
    {
        let mut bytes: Vec<u8> = Vec::new();
        write_byte(&mut bytes, ByteCode::PushConstFloat.to_u8());
        write_u32(&mut bytes, value);
        assert(bytes@ =~= encode_op(Op::PushConstFloat { value }));
        self.emit(bytes.as_slice());
    }

    /// The instruction `PushArg`.
    pub fn push_arg(&mut self)
        requires
            old(self)@.blocks.len() > 0,
        ensures
            final(self)@ == old(self)@.emit(encode_op(Op::PushArg)),
    {
        assert(encode_op(Op::PushArg) =~= seq![ByteCode::PushArg.code()]);
        self.add(ByteCode::PushArg);
    }

    /// The instruction `PopArg`.
    pub fn pop_arg(&mut self)
        requires
            old(self)@.blocks.len() > 0,
        ensures
            final(self)@ == old(self)@.emit(encode_op(Op::PopArg)),
    {
        assert(encode_op(Op::PopArg) =~= seq![ByteCode::PopArg.code()]);
        self.add(ByteCode::PopArg);
    }

    /// The instruction `Pop`.
    pub fn pop(&mut self)
        requires
            old(self)@.blocks.len() > 0,
        ensures
            final(self)@ == old(self)@.emit(encode_op(Op::Pop)),
    {
        assert(encode_op(Op::Pop) =~= seq![ByteCode::Pop.code()]);
        self.add(ByteCode::Pop);
    }

    /// The instruction `Dup`.
    pub fn dup(&mut self)
        requires
            old(self)@.blocks.len() > 0,
        ensures
            final(self)@ == old(self)@.emit(encode_op(Op::Dup)),
    {
        assert(encode_op(Op::Dup) =~= seq![ByteCode::Dup.code()]);
        self.add(ByteCode::Dup);
    }

    /// The instruction that does nothing.
    pub fn none(&mut self)
        requires
            old(self)@.blocks.len() > 0,
        ensures
            final(self)@ == old(self)@.emit(encode_op(Op::Nop)),
    {
        assert(encode_op(Op::Nop) =~= seq![ByteCode::Nop.code()]);
        self.add(ByteCode::Nop);
    }

    /// The module as bytes: the version, then every finished function with
    /// the length of its body, its name and its body.
    pub fn get_bytecode(&self) -> (bytes: Vec<u8>)
        requires
            forall|i: int| 0 <= i < self@.functions.len() ==> function_fits(self@.functions[i]),
        ensures
            bytes@ == module_bytes(self@.functions),
    {
        let ghost functions = self@.functions;
        let mut bytes: Vec<u8> = Vec::new();
        write_byte(&mut bytes, VERSION_MAJOR);
        write_byte(&mut bytes, VERSION_MINOR);
        write_byte(&mut bytes, VERSION_PATCH);
        let ghost header = seq![VERSION_MAJOR, VERSION_MINOR, VERSION_PATCH];
        assert(bytes@ =~= header);
        let mut i: usize = 0;
        assert(functions.take(0) =~= Seq::<Finished>::empty());
        assert(bytes@ =~= header + functions_bytes(functions.take(0)));
        while i < self.functions.len()
            invariant
                i <= self.functions.len(),
                functions == self@.functions,
                functions.len() == self.functions.len(),
                header == seq![VERSION_MAJOR, VERSION_MINOR, VERSION_PATCH],
                forall|j: int| 0 <= j < functions.len() ==> function_fits(functions[j]),
                bytes@ == header + functions_bytes(functions.take(i as int)),
            decreases self.functions.len() - i,
        {
            let entry = &self.functions[i];
            let ghost before = bytes@;
            assert(functions[i as int] == (entry.name@, entry.item@));
            assert(function_fits(functions[i as int]));
            write_byte(&mut bytes, ByteCode::Func.to_u8());
            write_u32(&mut bytes, entry.item.len() as u32);
            write_string(&mut bytes, entry.name.as_str());
            write_bytes(&mut bytes, entry.item.as_slice());
            proof {
                let upto = functions.take(i + 1);
                assert(upto.drop_last() =~= functions.take(i as int));
                assert(upto.last() == functions[i as int]);
                assert(bytes@ =~= before + function_bytes(functions[i as int]));
                assert(bytes@ =~= header + functions_bytes(upto));
            }
            i += 1;
        }
        assert(functions.take(functions.len() as int) =~= functions);
        bytes
    }
}

} // verus!
