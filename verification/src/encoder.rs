//! The recorder of commands, and the life of what it records into.
use vstd::prelude::*;

use crate::command::{CommandBuffer, CommandBufferView, CommandView};
use crate::flags::PrivateCapabilities;
use crate::state::{State, StateView};
use crate::types::DeviceError;

verus! {

/// A recorder of commands.
pub struct CommandEncoder {
    pub cmd_buffer: CommandBuffer,
    pub state: State,
    pub private_caps: PrivateCapabilities,
}

/// What a recorder holds.
#[verifier::ext_equal]
pub struct EncoderView {
    pub cmd_buffer: CommandBufferView,
    pub state: StateView,
    pub private_caps: PrivateCapabilities,
}

impl View for CommandEncoder {
    type V = EncoderView;

    open spec fn view(&self) -> EncoderView {
        EncoderView {
            cmd_buffer: self.cmd_buffer@,
            state: self.state@,
            private_caps: self.private_caps,
        }
    }
}

impl EncoderView {
    /// What holds of every recorder.
    pub open spec fn wf(self) -> bool {
        self.state.wf()
    }

    /// The recorder with further commands.
    pub open spec fn record(self, commands: Seq<CommandView>) -> EncoderView {
        EncoderView { cmd_buffer: self.cmd_buffer.extend(commands), ..self }
    }

    /// The recorder in another state.
    pub open spec fn in_state(self, state: StateView) -> EncoderView {
        EncoderView { state, ..self }
    }

    /// A recorder that has recorded nothing.
    pub open spec fn created(private_caps: PrivateCapabilities) -> EncoderView {
        EncoderView {
            cmd_buffer: CommandBufferView::empty(),
            state: StateView::initial(),
            private_caps,
        }
    }

    /// The start of a command buffer: the state is forgotten and the label is
    /// the given one.
    pub open spec fn begin_encoding(self, label: Option<Seq<char>>) -> EncoderView {
        EncoderView {
            cmd_buffer: CommandBufferView { label, ..self.cmd_buffer },
            state: StateView::initial(),
            ..self
        }
    }

    /// What is left once the command buffer was handed out or dropped.
    pub open spec fn without_commands(self) -> EncoderView {
        EncoderView { cmd_buffer: CommandBufferView::empty(), ..self }
    }
}

/// A label, as a sequence of characters.
pub open spec fn label_view(label: Option<&str>) -> Option<Seq<char>> {
    match label {
        Some(label) => Some(label@),
        None => None,
    }
}

impl CommandEncoder {
    /// A recorder for a driver with the given capabilities.
    pub fn new(private_caps: PrivateCapabilities) -> (encoder: CommandEncoder)
        ensures
            encoder@ == EncoderView::created(private_caps),
            encoder@.wf(),
    {
        CommandEncoder {
            cmd_buffer: CommandBuffer::default(),
            state: State::default(),
            private_caps,
        }
    }

    /// Starts a command buffer.
    pub fn begin_encoding(&mut self, label: Option<&str>) -> (result: Result<(), DeviceError>)
        ensures
            result is Ok,
            final(self)@ == old(self)@.begin_encoding(label_view(label)),
            final(self)@.wf(),
    {
        self.state = State::default();
        self.cmd_buffer.label = match label {
            Some(label) => Some(label.to_owned()),
            None => None,
        };
        assert(self@ =~= old(self)@.begin_encoding(label_view(label)));
        Ok(())
    }

    /// Drops what was recorded.
    pub fn discard_encoding(&mut self)
        ensures
            final(self)@ == old(self)@.without_commands(),
    {
        self.cmd_buffer.clear();
    }

    /// Hands out what was recorded.
    pub fn end_encoding(&mut self) -> (result: Result<CommandBuffer, DeviceError>)
        ensures
            result matches Ok(buffer) && buffer@ == old(self)@.cmd_buffer,
            final(self)@ == old(self)@.without_commands(),
    {
        let mut taken = CommandBuffer::default();
        std::mem::swap(&mut taken, &mut self.cmd_buffer);
        Ok(taken)
    }

    /// Takes back command buffers that have been executed. They are dropped.
    pub fn reset_all(&mut self, _command_buffers: Vec<CommandBuffer>)
        ensures
            final(self)@ == old(self)@,
    {
    }
}

} // verus!
