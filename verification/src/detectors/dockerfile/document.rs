//! A parsed Dockerfile: build stages made of instructions.
//!
//! The values here are what a Dockerfile parser hands over. Each instruction
//! carries `offset`, the byte position in the source text at which it begins.

use vstd::prelude::*;

verus! {

/// One variable that an `ENV` instruction declares.
#[derive(Debug)]
pub struct EnvVar {
    pub key: String,
    pub value: String,
}

/// One instruction of a Dockerfile.
#[derive(Debug)]
pub enum Instruction {
    /// `FROM image[:tag]`.
    From { image: String, tag: Option<String>, offset: usize },
    /// `RUN`, with its command as text, in shell or exec form.
    Run { command: String, offset: usize },
    /// `CMD`, with its command as text, in shell or exec form.
    Cmd { command: String, offset: usize },
    /// `ENTRYPOINT`, with its command as text, in shell or exec form.
    Entrypoint { command: String, offset: usize },
    /// `LABEL`.
    Label { offset: usize },
    /// `ENV`, with the variables it declares, in order.
    Env { vars: Vec<EnvVar>, offset: usize },
    /// `COPY`, with its sources.
    Copy { sources: Vec<String>, offset: usize },
    /// `ARG`.
    Arg { offset: usize },
    /// Any other instruction: its name as written, and the text after it.
    Misc { instruction: String, arguments: String, offset: usize },
}

impl Instruction {
    /// The byte position in the source text at which the instruction begins.
    pub open spec fn spec_offset(&self) -> usize {
        match self {
            Instruction::From { offset, .. } => *offset,
            Instruction::Run { offset, .. } => *offset,
            Instruction::Cmd { offset, .. } => *offset,
            Instruction::Entrypoint { offset, .. } => *offset,
            Instruction::Label { offset } => *offset,
            Instruction::Env { offset, .. } => *offset,
            Instruction::Copy { offset, .. } => *offset,
            Instruction::Arg { offset } => *offset,
            Instruction::Misc { offset, .. } => *offset,
        }
    }

    /// The byte position in the source text at which the instruction begins.
    #[verifier::when_used_as_spec(spec_offset)]
    pub fn offset(&self) -> (r: usize)
        ensures
            r == self.spec_offset(),
    {
        match self {
            Instruction::From { offset, .. } => *offset,
            Instruction::Run { offset, .. } => *offset,
            Instruction::Cmd { offset, .. } => *offset,
            Instruction::Entrypoint { offset, .. } => *offset,
            Instruction::Label { offset } => *offset,
            Instruction::Env { offset, .. } => *offset,
            Instruction::Copy { offset, .. } => *offset,
            Instruction::Arg { offset } => *offset,
            Instruction::Misc { offset, .. } => *offset,
        }
    }
}

/// One build stage: the instructions from a `FROM` up to the next one.
#[derive(Debug)]
pub struct Stage {
    /// Position of the stage in the file, counted from 0.
    pub index: usize,
    pub instructions: Vec<Instruction>,
}

/// A parsed Dockerfile.
#[derive(Debug)]
pub struct Dockerfile {
    pub stages: Vec<Stage>,
}

} // verus!
