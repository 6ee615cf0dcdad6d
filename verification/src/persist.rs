//! The protocol by which a table's file is rewritten: lock, seek to the
//! start, write everything, cut the file to what was written, flush. The
//! library decides the steps and what a failed step means; its caller
//! performs each step on the file and reports how it went.

use vstd::prelude::*;
use vstd::string::StringExecFns;

use crate::{fails_with, MooError, MooErrorCodes, MooResult};

verus! {

/// One step of a rewrite.
#[derive(Debug, Clone, Copy, PartialEq, Eq)]
pub enum SaveStep {
    /// Take the lock of the table's file.
    Lock,
    /// Move to offset 0.
    Seek,
    /// Write all the bytes.
    Write,
    /// Set the length of the file to the number of bytes written.
    Truncate,
    /// Hand what was written to the operating system.
    Flush,
}

/// The step that follows `step`, or `None` after the last one.
pub open spec fn following(step: SaveStep) -> Option<SaveStep> {
    match step {
        SaveStep::Lock => Some(SaveStep::Seek),
        SaveStep::Seek => Some(SaveStep::Write),
        SaveStep::Write => Some(SaveStep::Truncate),
        SaveStep::Truncate => Some(SaveStep::Flush),
        SaveStep::Flush => None,
    }
}

/// What the error says when `step` fails.
pub open spec fn failure_message(step: SaveStep) -> Seq<char> {
    match step {
        SaveStep::Lock => "Failed to lock table file."@,
        SaveStep::Seek => "Failed to seek table file."@,
        SaveStep::Write => "Failed to write to table file."@,
        SaveStep::Truncate => "Failed to truncate table file."@,
        SaveStep::Flush => "Failed to flush table file."@,
    }
}

/// The error that a failed `step` raises: always fatal.
pub fn failure(step: SaveStep) -> (error: MooError)
    ensures
        error.code == MooErrorCodes::Fatal,
        error.message@ == failure_message(step),
{
    let message = match step {
        SaveStep::Lock => "Failed to lock table file.",
        SaveStep::Seek => "Failed to seek table file.",
        SaveStep::Write => "Failed to write to table file.",
        SaveStep::Truncate => "Failed to truncate table file.",
        SaveStep::Flush => "Failed to flush table file.",
    };
    MooError { code: MooErrorCodes::Fatal, message: String::from_str(message) }
}

/// A rewrite of a table's file that is under way.
#[derive(Debug)]
pub struct Rewrite {
    /// Everything that the file is to hold.
    pub bytes: Vec<u8>,
    /// The step to perform next; `None` once the rewrite is complete or has
    /// failed.
    pub next: Option<SaveStep>,
    /// Whether every step so far went well.
    pub sound: bool,
}

impl Rewrite {
    /// A rewrite that is to leave exactly `bytes` in the file. Nothing has
    /// been done yet.
    pub fn new(bytes: Vec<u8>) -> (rewrite: Self)
        ensures
            rewrite.bytes@ == bytes@,
            rewrite.next == Some(SaveStep::Lock),
            rewrite.sound,
            forall|file: FileImage| (#[trigger] rewrite.leaves(file)).content == bytes@,
    {
        let rewrite = Rewrite { bytes, next: Some(SaveStep::Lock), sound: true };
        assert forall|file: FileImage| (#[trigger] rewrite.leaves(file)).content == bytes@ by {
            rewrite_leaves_exactly(bytes@, file);
        }
        rewrite
    }

    /// The rewrite has gone through all its steps.
    pub open spec fn complete(&self) -> bool {
        self.next is None && self.sound
    }

    /// What becomes of `file` when the steps that are left all go well.
    pub open spec fn leaves(&self, file: FileImage) -> FileImage {
        carried_out(self.next, self.bytes@, file)
    }

    /// The step to perform next, if any is left.
    pub fn pending(&self) -> (step: Option<SaveStep>)
        ensures
            step == self.next,
    {
        self.next
    }

    /// Whether all steps were performed.
    pub fn is_complete(&self) -> (done: bool)
        ensures
            done == self.complete(),
    {
        self.next.is_none() && self.sound
    }

    /// The offset that the `Seek` step moves to.
    pub fn offset(&self) -> (offset: u64)
        ensures
            offset == 0,
    {
        0
    }

    /// The bytes that the `Write` step writes.
    pub fn content(&self) -> (bytes: &[u8])
        ensures
            bytes@ == self.bytes@,
    {
        self.bytes.as_slice()
    }

    /// The length that the `Truncate` step gives the file.
    pub fn length(&self) -> (length: usize)
        ensures
            length == self.bytes@.len(),
    {
        self.bytes.len()
    }

    /// Takes note of how the pending step went. After a step that went well
    /// the next one is pending. A failed step ends the rewrite with the
    /// error of that step. With no step pending nothing changes.
    pub fn advance(&mut self, done: bool) -> (result: MooResult<()>)
        ensures
            final(self).bytes@ == old(self).bytes@,
            match old(self).next {
                Some(step) => if done {
                    &&& result is Ok
                    &&& final(self).next == following(step)
                    &&& final(self).sound == old(self).sound
                    &&& forall|file: FileImage|
                        final(self).leaves(effect(step, old(self).bytes@, file))
                            == #[trigger] old(self).leaves(file)
                } else {
                    &&& fails_with(result, MooErrorCodes::Fatal, failure_message(step))
                    &&& final(self).next is None
                    &&& !final(self).sound
                },
                None => {
                    &&& result is Ok
                    &&& final(self).next is None
                    &&& final(self).sound == old(self).sound
                },
            },
    {
        match self.next {
            Some(step) => {
                if done {
                    self.next = match step {
                        SaveStep::Lock => Some(SaveStep::Seek),
                        SaveStep::Seek => Some(SaveStep::Write),
                        SaveStep::Write => Some(SaveStep::Truncate),
                        SaveStep::Truncate => Some(SaveStep::Flush),
                        SaveStep::Flush => None,
                    };
                    Ok(())
                } else {
                    self.next = None;
                    self.sound = false;
                    Err(failure(step))
                }
            },
            None => Ok(()),
        }
    }
}

/// A file as the protocol sees it: its bytes, and the offset at which the
/// next write lands.
pub struct FileImage {
    pub content: Seq<u8>,
    pub cursor: nat,
}

/// `content` with `bytes` written at offset `at`: what lies before stays,
/// a gap past the end is filled with zeros, and what lies behind the
/// written bytes stays too.
pub open spec fn overwritten(content: Seq<u8>, at: nat, bytes: Seq<u8>) -> Seq<u8> {
    Seq::new(
        if content.len() >= at + bytes.len() {
            content.len()
        } else {
            at + bytes.len()
        },
        |i: int|
            if at <= i < at + bytes.len() {
                bytes[i - at]
            } else if i < content.len() {
                content[i]
            } else {
                0u8
            },
    )
}

/// `content` cut or extended with zeros to `length` bytes.
pub open spec fn resized(content: Seq<u8>, length: nat) -> Seq<u8> {
    Seq::new(
        length,
        |i: int|
            if i < content.len() {
                content[i]
            } else {
                0u8
            },
    )
}

/// The file after `step` of a rewrite with `bytes` went well.
pub open spec fn effect(step: SaveStep, bytes: Seq<u8>, file: FileImage) -> FileImage {
    match step {
        SaveStep::Lock => file,
        SaveStep::Seek => FileImage { content: file.content, cursor: 0 },
        SaveStep::Write => FileImage {
            content: overwritten(file.content, file.cursor, bytes),
            cursor: file.cursor + bytes.len(),
        },
        SaveStep::Truncate => FileImage {
            content: resized(file.content, bytes.len()),
            cursor: file.cursor,
        },
        SaveStep::Flush => file,
    }
}

/// The file after the steps from `next` on went well, one after the other.
pub open spec fn carried_out(next: Option<SaveStep>, bytes: Seq<u8>, file: FileImage) -> FileImage
    decreases
            match next {
                Some(SaveStep::Lock) => 5nat,
                Some(SaveStep::Seek) => 4nat,
                Some(SaveStep::Write) => 3nat,
                Some(SaveStep::Truncate) => 2nat,
                Some(SaveStep::Flush) => 1nat,
                None => 0nat,
            },
{
    match next {
        Some(step) => carried_out(following(step), bytes, effect(step, bytes, file)),
        None => file,
    }
}

/// A rewrite that runs from its first step to its last leaves exactly the
/// bytes it was given: whatever the file held before and wherever its
/// cursor stood, nothing of the old content is left behind them, and the
/// size of the file is the number of bytes written.
pub proof fn rewrite_leaves_exactly(bytes: Seq<u8>, file: FileImage)
    ensures
        carried_out(Some(SaveStep::Lock), bytes, file).content == bytes,
        carried_out(Some(SaveStep::Lock), bytes, file).content.len() == bytes.len(),
{
    reveal_with_fuel(carried_out, 6);
    let sought = effect(SaveStep::Seek, bytes, effect(SaveStep::Lock, bytes, file));
    let written = effect(SaveStep::Write, bytes, sought);
    let cut = effect(SaveStep::Truncate, bytes, written);
    assert(cut.content =~= bytes);
}

} // verus!
