//! Input arbitration: while the user points at one of the overlay's panels, the game must
//! not receive controller input as well.
//!
//! The game is the session that is active and visible and not itself an overlay, which
//! leaves out this overlay and others without looking at names.

use vstd::prelude::*;

verus! {

/// The first version of the runtime's interface that can block inputs alone.
pub const IO_BLOCKS_SINCE: (u64, u64, u64) = (1, 6, 0);

/// Whether game input is held back, and how the runtime is to be told.
pub struct Blocker {
    pub connected: bool,
    pub use_io_blocks: bool,
    pub blocked: bool,
}

/// What the runtime says of the session of a client.
#[derive(Clone, Copy, PartialEq, Eq, Debug, Structural)]
pub struct ClientFlags {
    pub active: bool,
    pub visible: bool,
    pub overlay: bool,
}

/// What to tell the runtime of a client.
#[derive(Clone, Copy, PartialEq, Eq, Debug, Structural)]
pub enum Command {
    /// Block its inputs alone, or nothing.
    BlockInputs(bool),
    /// Let it have all input and output, or none.
    IoActive(bool),
}

/// Whether version `a` is at least version `b`.
pub open spec fn at_least(a: (u64, u64, u64), b: (u64, u64, u64)) -> bool {
    a.0 > b.0 || (a.0 == b.0 && (a.1 > b.1 || (a.1 == b.1 && a.2 >= b.2)))
}

/// Whether the client is the game. One whose state is not known is not.
pub open spec fn is_game(client: Option<ClientFlags>) -> bool {
    match client {
        Some(c) => c.active && c.visible && !c.overlay,
        None => false,
    }
}

/// What is to be applied when input is to be held back or not: nothing where nothing changes.
pub open spec fn set_news(blocked: bool, block: bool) -> Option<bool> {
    if block == blocked {
        None
    } else {
        Some(block)
    }
}

impl Blocker {
    /// What to tell the runtime of a client so that its input is held back or not.
    pub open spec fn command(&self, block: bool, client: Option<ClientFlags>) -> Option<Command> {
        if self.connected && is_game(client) {
            if self.use_io_blocks {
                Some(Command::BlockInputs(block))
            } else {
                Some(Command::IoActive(!block))
            }
        } else {
            None
        }
    }

    /// A blocker that holds nothing back, from the version of the runtime's interface
    /// where the runtime could be reached. Blocks that an earlier run left are to be
    /// cleared by applying `false`.
    pub fn new(api: Option<(u64, u64, u64)>) -> (r: Blocker)
        ensures
            r.connected == (api is Some),
            r.use_io_blocks == (api is Some && at_least(api->0, IO_BLOCKS_SINCE)),
            !r.blocked,
    {
        match api {
            Some((major, minor, patch)) => {
                let (since_major, since_minor, since_patch) = IO_BLOCKS_SINCE;
                let use_io_blocks = major > since_major || (major == since_major && (minor
                    > since_minor || (minor == since_minor && patch >= since_patch)));
                Blocker { connected: true, use_io_blocks, blocked: false }
            },
            None => Blocker { connected: false, use_io_blocks: false, blocked: false },
        }
    }

    /// Holds game input back or releases it. The result says what to apply, and is nothing
    /// where nothing changes.
    pub fn set(&mut self, block: bool) -> (r: Option<bool>)
        ensures
            r == set_news(old(self).blocked, block),
            final(self).blocked == block,
            final(self).connected == old(self).connected,
            final(self).use_io_blocks == old(self).use_io_blocks,
    {
        if block == self.blocked {
            return None;
        }
        self.blocked = block;
        Some(block)
    }

    /// What is to be applied when the overlay ends: a release where input is held back.
    pub fn release(&self) -> (r: Option<bool>)
        ensures
            r == (if self.blocked {
                Some(false)
            } else {
                None::<bool>
            }),
    {
        if self.blocked {
            Some(false)
        } else {
            None
        }
    }

    /// What to tell the runtime of each of its clients.
    pub fn apply(&self, block: bool, clients: &Vec<Option<ClientFlags>>) -> (r: Vec<Option<Command>>)
        ensures
            r@.len() == clients@.len(),
            forall|i: int|
                0 <= i < clients@.len() ==> #[trigger] r@[i] == self.command(block, clients@[i]),
    {
        let mut out: Vec<Option<Command>> = Vec::new();
        let mut i: usize = 0;
        while i < clients.len()
            invariant
                i <= clients@.len(),
                out@.len() == i,
                forall|k: int|
                    0 <= k < i ==> #[trigger] out@[k] == self.command(block, clients@[k]),
            decreases clients@.len() - i,
        {
            let game = match clients[i] {
                Some(c) => c.active && c.visible && !c.overlay,
                None => false,
            };
            if self.connected && game {
                if self.use_io_blocks {
                    out.push(Some(Command::BlockInputs(block)));
                } else {
                    out.push(Some(Command::IoActive(!block)));
                }
            } else {
                out.push(None);
            }
            i = i + 1;
        }
        out
    }
}

/// Whether input is held back after a number of calls of [`Blocker::set`].
pub open spec fn blocked_after(calls: Seq<bool>) -> bool {
    calls.len() > 0 && calls.last()
}

/// What was applied in a number of calls of [`Blocker::set`].
pub open spec fn applied(calls: Seq<bool>) -> Seq<bool>
    decreases calls.len(),
{
    if calls.len() == 0 {
        Seq::empty()
    } else {
        let before = applied(calls.drop_last());
        match set_news(blocked_after(calls.drop_last()), calls.last()) {
            Some(b) => before.push(b),
            None => before,
        }
    }
}

/// However often input is held back or released, the runtime is told of blocks and releases
/// in turn, a block first, and what it was told last is what holds.
pub proof fn law_told_in_turn(calls: Seq<bool>)
    ensures
        forall|i: int| 0 <= i < applied(calls).len() ==> #[trigger] applied(calls)[i] == (i % 2 == 0),
        blocked_after(calls) <==> applied(calls).len() % 2 == 1,
    decreases calls.len(),
{
    if calls.len() > 0 {
        law_told_in_turn(calls.drop_last());
    }
}

/// Another overlay, this one among them, is never told anything.
pub proof fn law_overlays_left_alone(b: Blocker, block: bool, client: ClientFlags)
    requires
        client.overlay,
    ensures
        b.command(block, Some(client)) is None,
{
}

/// A release takes back exactly what a block did: it goes to the same clients, and says
/// the opposite.
pub proof fn law_release_undoes_block(b: Blocker, client: Option<ClientFlags>)
    ensures
        b.command(true, client) is Some <==> b.command(false, client) is Some,
        b.command(true, client) is Some ==> b.command(true, client) != b.command(false, client),
{
}

/// Versions are compared as the numbers they write: where no part has more than three digits,
/// as one number of nine.
pub proof fn law_versions_compare(a: (u64, u64, u64), b: (u64, u64, u64))
    requires
        a.1 < 1000,
        a.2 < 1000,
        b.1 < 1000,
        b.2 < 1000,
    ensures
        at_least(a, b) <==> a.0 * 1_000_000 + a.1 * 1_000 + a.2 >= b.0 * 1_000_000 + b.1 * 1_000
            + b.2,
{
}

/// Of two versions one is at least the other, both only where they are the same, and what is
/// at least something that is at least a third is at least that.
pub proof fn law_versions_ordered(a: (u64, u64, u64), b: (u64, u64, u64), c: (u64, u64, u64))
    ensures
        at_least(a, b) || at_least(b, a),
        at_least(a, b) && at_least(b, a) ==> a == b,
        at_least(a, b) && at_least(b, c) ==> at_least(a, c),
{
}

/// The game is told whenever the runtime can be reached: its inputs alone are blocked where
/// the runtime can do that, and all of its input and output is turned off where not.
pub proof fn law_game_is_told(b: Blocker, block: bool, client: ClientFlags)
    requires
        b.connected,
        client.active,
        client.visible,
        !client.overlay,
    ensures
        b.use_io_blocks ==> b.command(block, Some(client)) == Some(Command::BlockInputs(block)),
        !b.use_io_blocks ==> b.command(block, Some(client)) == Some(Command::IoActive(!block)),
{
}

/// No client but the game is told anything: none that is not active, not visible or not known,
/// and none where the runtime cannot be reached.
pub proof fn law_only_the_game_is_told(b: Blocker, block: bool, client: Option<ClientFlags>)
    ensures
        b.command(block, client) is Some ==> b.connected && client is Some && client->0.active
            && client->0.visible && !client->0.overlay,
{
}

/// The runtime is told whenever the game's input is to be held back and was not, or was and is
/// to be released, and is told just that; it is not told twice.
pub proof fn law_change_is_told(blocked: bool, block: bool)
    ensures
        block && !blocked ==> set_news(blocked, block) == Some(true),
        !block && blocked ==> set_news(blocked, block) == Some(false),
        block && blocked ==> set_news(blocked, block) is None,
        !block && !blocked ==> set_news(blocked, block) is None,
{
}

} // verus!
