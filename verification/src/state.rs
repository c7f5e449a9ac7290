//! What one parse pass carries along: its settings, and the generator of the
//! identifiers that it gives to functions and blocks.

use vstd::prelude::*;

verus! {

/// Names a function-like construct for as long as the node lives.
#[derive(Clone, Copy, Debug, PartialEq, Eq, Structural, Hash)]
pub struct FunctionId(pub u64);

/// Names the block that is the body of a construct.
#[derive(Clone, Copy, Debug, PartialEq, Eq, Structural, Hash)]
pub struct BlockId(pub u64);

/// How many identifiers of each sort a pass has handed out.
pub struct IdCounters {
    pub functions: nat,
    pub blocks: nat,
}

impl IdCounters {
    /// Whether `count` more identifiers of each sort can be handed out.
    pub open spec fn room_for(self, count: nat) -> bool {
        self.functions + count <= u64::MAX && self.blocks + count <= u64::MAX
    }

    /// Whether `later` can follow `self` in one pass: no counter runs back.
    pub open spec fn precedes(self, later: IdCounters) -> bool {
        self.functions <= later.functions && self.blocks <= later.blocks
    }

    /// Whether going from `self` to `later` handed out at most `count`
    /// identifiers of each sort.
    pub open spec fn within(self, later: IdCounters, count: int) -> bool {
        &&& self.precedes(later)
        &&& later.functions - self.functions <= count
        &&& later.blocks - self.blocks <= count
    }
}

/// The state of one parse pass. It owns the identifier generator, so two
/// nodes parsed in one pass never share an identifier.
#[derive(Debug)]
pub struct ParsingState {
    next_function: u64,
    next_block: u64,
}

impl View for ParsingState {
    type V = IdCounters;

    closed spec fn view(&self) -> IdCounters {
        IdCounters { functions: self.next_function as nat, blocks: self.next_block as nat }
    }
}

impl ParsingState {
    /// The state of a pass that has handed out nothing yet.
    pub fn new() -> (state: ParsingState)
        ensures
            state@ == (IdCounters { functions: 0, blocks: 0 }),
    {
        ParsingState { next_function: 0, next_block: 0 }
    }

    /// Whether the pass can still name all that `tokens` tokens may hold.
    pub fn has_room_for(&self, tokens: usize) -> (enough: bool)
        ensures
            enough == self@.room_for(tokens as nat),
    {
        let count: u64 = tokens as u64;
        self.next_function <= u64::MAX - count && self.next_block <= u64::MAX - count
    }

    /// A function identifier that this pass has not handed out before.
    pub fn new_function_id(&mut self) -> (id: FunctionId)
        requires
            old(self)@.functions < u64::MAX,
        ensures
            id.0 == old(self)@.functions,
            final(self)@ == (IdCounters {
                functions: old(self)@.functions + 1,
                blocks: old(self)@.blocks,
            }),
    {
        let id = FunctionId(self.next_function);
        self.next_function = self.next_function + 1;
        id
    }

    /// A block identifier that this pass has not handed out before.
    pub fn new_block_id(&mut self) -> (id: BlockId)
        requires
            old(self)@.blocks < u64::MAX,
        ensures
            id.0 == old(self)@.blocks,
            final(self)@ == (IdCounters {
                functions: old(self)@.functions,
                blocks: old(self)@.blocks + 1,
            }),
    {
        let id = BlockId(self.next_block);
        self.next_block = self.next_block + 1;
        id
    }
}

impl Default for ParsingState {
    fn default() -> (state: ParsingState)
        ensures
            state@ == (IdCounters { functions: 0, blocks: 0 }),
    {
        ParsingState::new()
    }
}

/// Settings that hold for a whole parse.
#[derive(Clone, Copy, Debug, PartialEq, Eq, Structural, Default)]
pub struct ParseSettings {}

/// How a node is printed.
#[derive(Clone, Copy, Debug, PartialEq, Eq, Structural)]
pub struct ToStringSettings {
    /// With it, the usual white space stands around operators and
    /// boundaries; without it, the shortest valid form is printed.
    pub pretty: bool,
}

impl ToStringSettings {
    pub fn pretty() -> (settings: ToStringSettings)
        ensures
            settings.pretty,
    {
        ToStringSettings { pretty: true }
    }

    pub fn minified() -> (settings: ToStringSettings)
        ensures
            !settings.pretty,
    {
        ToStringSettings { pretty: false }
    }
}

impl Default for ToStringSettings {
    fn default() -> (settings: ToStringSettings)
        ensures
            settings.pretty,
    {
        ToStringSettings { pretty: true }
    }
}

} // verus!
