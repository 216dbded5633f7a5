//! What an operation adds to what was recorded before it.
use vstd::prelude::*;

use crate::command::{CommandBufferView, CommandView};
use crate::encoder::EncoderView;
use crate::state::StateView;

verus! {

impl EncoderView {
    /// The commands that `later` has recorded on top of those of `self`.
    pub open spec fn added(self, later: EncoderView) -> Seq<CommandView> {
        later.cmd_buffer.commands.skip(self.cmd_buffer.commands.len() as int)
    }

    /// Whether `later` has the commands of `self` and maybe further ones, and
    /// the same label, data and capabilities.
    pub open spec fn only_adds(self, later: EncoderView) -> bool {
        &&& later.private_caps == self.private_caps
        &&& later.cmd_buffer == (CommandBufferView {
            commands: later.cmd_buffer.commands,
            ..self.cmd_buffer
        })
        &&& self.cmd_buffer.commands.is_prefix_of(later.cmd_buffer.commands)
    }
}

/// To record commands adds them, after those that there are.
pub proof fn law_record_adds(encoder: EncoderView, commands: Seq<CommandView>)
    ensures
        encoder.only_adds(encoder.record(commands)),
        encoder.added(encoder.record(commands)) == commands,
        encoder.record(commands).state == encoder.state,
{
    lemma_added(encoder, encoder.state, commands);
}

/// What a recorder in another state with further commands has added.
pub(crate) proof fn lemma_added(
    encoder: EncoderView,
    state: StateView,
    commands: Seq<CommandView>,
)
    ensures
        encoder.only_adds(encoder.in_state(state).record(commands)),
        encoder.added(encoder.in_state(state).record(commands)) == commands,
{
    let earlier = encoder.cmd_buffer.commands;
    let later = earlier + commands;
    assert(later.subrange(0, earlier.len() as int) =~= earlier);
    assert(later.skip(earlier.len() as int) =~= commands);
}

} // verus!
