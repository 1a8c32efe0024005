//! The output of a process, of which only the end is kept.

use vstd::prelude::*;
use vstd::slice::slice_subrange;
use vstd::utf8::{decode_utf8, valid_utf8};

verus! {

/// What has been written to a stream, and how much of it is kept.
#[verifier::ext_equal]
pub struct OutputModel {
    pub max_bytes: nat,
    pub written: Seq<u8>,
}

/// Where the part that is kept begins.
pub open spec fn earliest_offset(output: OutputModel) -> int {
    if output.written.len() > output.max_bytes {
        output.written.len() - output.max_bytes
    } else {
        0
    }
}

/// The part that is kept: the last bytes, as many as there is room for.
pub open spec fn kept(output: OutputModel) -> Seq<u8> {
    output.written.skip(earliest_offset(output))
}

/// Whether some of the output is kept no longer.
pub open spec fn is_truncated(output: OutputModel) -> bool {
    output.written.len() > output.max_bytes
}

/// What is kept of the output from `offset` on.
pub open spec fn kept_since(output: OutputModel, offset: int) -> Seq<u8> {
    if offset < earliest_offset(output) {
        kept(output)
    } else if offset <= output.written.len() {
        output.written.skip(offset)
    } else {
        seq![]
    }
}

/// Output with more behind it.
pub open spec fn appended(output: OutputModel, chunk: Seq<u8>) -> OutputModel {
    OutputModel { written: output.written + chunk, ..output }
}

/// The text that bytes stand for in UTF-8, where what stands for nothing is
/// replaced: [`String::from_utf8_lossy`].
pub uninterp spec fn utf8_lossy(bytes: Seq<u8>) -> Seq<char>;

/// [`String::from_utf8_lossy`]: bytes that are UTF-8 give the text they encode;
/// in other bytes the function puts a mark in place of what is not UTF-8.
#[verifier::external_body]
fn lossy_text(bytes: &[u8]) -> (r: String)
    ensures
        r@ == utf8_lossy(bytes@),
        valid_utf8(bytes@) ==> r@ == decode_utf8(bytes@),
{
    String::from_utf8_lossy(bytes).into_owned()
}

/// The output that is kept.
#[derive(Debug, Clone, PartialEq, Eq)]
pub struct ProcessOutputSnapshot {
    pub content: String,
    pub truncated: bool,
    pub total_bytes: usize,
}

/// What a snapshot of output says.
#[verifier::ext_equal]
pub struct OutputSnapshotModel {
    pub content: Seq<char>,
    pub truncated: bool,
    pub total_bytes: int,
}

impl View for ProcessOutputSnapshot {
    type V = OutputSnapshotModel;

    open spec fn view(&self) -> OutputSnapshotModel {
        OutputSnapshotModel {
            content: self.content@,
            truncated: self.truncated,
            total_bytes: self.total_bytes as int,
        }
    }
}

/// The output since a cursor.
#[derive(Debug, Clone, PartialEq, Eq)]
pub struct ProcessOutputDelta {
    pub content: String,
    pub next_offset: usize,
    pub total_bytes: usize,
    pub missed_output: bool,
    pub truncated: bool,
}

/// What the output since a cursor says.
#[verifier::ext_equal]
pub struct OutputDeltaModel {
    pub content: Seq<char>,
    pub next_offset: int,
    pub total_bytes: int,
    pub missed_output: bool,
    pub truncated: bool,
}

impl View for ProcessOutputDelta {
    type V = OutputDeltaModel;

    open spec fn view(&self) -> OutputDeltaModel {
        OutputDeltaModel {
            content: self.content@,
            next_offset: self.next_offset as int,
            total_bytes: self.total_bytes as int,
            missed_output: self.missed_output,
            truncated: self.truncated,
        }
    }
}

/// The snapshot of an output.
pub open spec fn output_snapshot(output: OutputModel) -> OutputSnapshotModel {
    OutputSnapshotModel {
        content: utf8_lossy(kept(output)),
        truncated: is_truncated(output),
        total_bytes: output.written.len() as int,
    }
}

/// An output since `offset`.
pub open spec fn output_delta(output: OutputModel, offset: int) -> OutputDeltaModel {
    OutputDeltaModel {
        content: utf8_lossy(kept_since(output, offset)),
        next_offset: output.written.len() as int,
        total_bytes: output.written.len() as int,
        missed_output: offset < earliest_offset(output),
        truncated: is_truncated(output),
    }
}

/// A buffer for the output of a process: it keeps the last `max_bytes` bytes.
pub struct BoundedOutputBuffer {
    max_bytes: usize,
    bytes: Vec<u8>,
    total_bytes: usize,
    truncated: bool,
    written: Ghost<Seq<u8>>,
}

impl View for BoundedOutputBuffer {
    type V = OutputModel;

    closed spec fn view(&self) -> OutputModel {
        OutputModel { max_bytes: self.max_bytes as nat, written: self.written@ }
    }
}

impl BoundedOutputBuffer {
    /// The buffer holds what is kept, and has counted all of it.
    pub closed spec fn well_formed(&self) -> bool {
        &&& self.bytes@ == kept(self@)
        &&& self.total_bytes == self.written@.len()
        &&& self.truncated == is_truncated(self@)
    }

    pub fn new(max_bytes: usize) -> (r: Self)
        ensures
            r.well_formed(),
            r@ == (OutputModel { max_bytes: max_bytes as nat, written: seq![] }),
    {
        let r = BoundedOutputBuffer {
            max_bytes,
            bytes: Vec::new(),
            total_bytes: 0,
            truncated: false,
            written: Ghost(Seq::empty()),
        };
        assert(r.bytes@ == kept(r@));
        r
    }

    /// Whether `count` more bytes can be counted.
    pub fn has_room_for(&self, count: usize) -> (r: bool)
        requires
            self.well_formed(),
        ensures
            r == (self@.written.len() + count <= usize::MAX),
            self@.written.len() <= usize::MAX,
    {
        count <= usize::MAX - self.total_bytes
    }

    /// Adds a chunk of output.
    pub fn append(&mut self, chunk: &[u8])
        requires
            old(self).well_formed(),
            old(self)@.written.len() + chunk@.len() <= usize::MAX,
        ensures
            final(self).well_formed(),
            final(self)@ == appended(old(self)@, chunk@),
    {
        let ghost before = self@;
        if chunk.len() == 0 {
            assert(self@.written + chunk@ == self@.written);
            return;
        }
        self.total_bytes += chunk.len();
        self.bytes.extend_from_slice(chunk);
        proof {
            self.written@ = before.written + chunk@;
        }
        assert(self.bytes@ == kept(before) + chunk@);
        assert(self.bytes@ == self.written@.skip(earliest_offset(before)));
        if self.bytes.len() > self.max_bytes {
            let overflow: usize = self.bytes.len() - self.max_bytes;
            let rest = self.bytes.split_off(overflow);
            self.bytes = rest;
            self.truncated = true;
            assert(self.bytes@ == kept(self@));
        }
    }

    /// The output that is kept.
    pub fn snapshot(&self) -> (r: ProcessOutputSnapshot)
        requires
            self.well_formed(),
        ensures
            r@ == output_snapshot(self@),
            valid_utf8(kept(self@)) ==> r.content@ == decode_utf8(kept(self@)),
    {
        ProcessOutputSnapshot {
            content: lossy_text(self.bytes.as_slice()),
            truncated: self.truncated,
            total_bytes: self.total_bytes,
        }
    }

    /// The output since `offset`, as far as it is kept.
    pub fn delta_since(&self, offset: usize) -> (r: ProcessOutputDelta)
        requires
            self.well_formed(),
        ensures
            r@ == output_delta(self@, offset as int),
            valid_utf8(kept_since(self@, offset as int)) ==> r.content@ == decode_utf8(
                kept_since(self@, offset as int),
            ),
    {
        let earliest: usize = self.total_bytes - self.bytes.len();
        let missed_output = offset < earliest;
        let effective: usize = if offset < earliest {
            earliest
        } else if offset > self.total_bytes {
            self.total_bytes
        } else {
            offset
        };
        let start: usize = effective - earliest;
        let rest = slice_subrange(self.bytes.as_slice(), start, self.bytes.len());
        assert(rest@ == kept_since(self@, offset as int));
        ProcessOutputDelta {
            content: lossy_text(rest),
            next_offset: self.total_bytes,
            total_bytes: self.total_bytes,
            missed_output,
            truncated: self.truncated,
        }
    }
}

/// A buffer keeps no more than it may, and all of the output as long as that fits.
pub proof fn law_kept_is_bounded(output: OutputModel)
    ensures
        kept(output).len() <= output.max_bytes,
        output.written.len() <= output.max_bytes ==> kept(output) == output.written,
        is_truncated(output) <==> kept(output).len() < output.written.len(),
        kept(output) == output.written.skip(output.written.len() - kept(output).len()),
{
}

/// A reader who asks from the cursor of the time before is told of exactly the
/// bytes written since, unless it is told that output was missed.
pub proof fn law_cursor_resumes(output: OutputModel, chunk: Seq<u8>)
    ensures
        !output_delta(
            appended(output, chunk),
            output_delta(output, 0).next_offset,
        ).missed_output ==> kept_since(
            appended(output, chunk),
            output_delta(output, 0).next_offset,
        ) == chunk,
        chunk.len() <= output.max_bytes ==> !output_delta(
            appended(output, chunk),
            output_delta(output, 0).next_offset,
        ).missed_output,
{
    assert((output.written + chunk).skip(output.written.len() as int) == chunk);
}

/// A reader who asks from a cursor and then from the next one has missed
/// nothing if it was told so neither time: the two parts together are all
/// that was written from the first cursor on.
pub proof fn law_polls_leave_no_gap(output: OutputModel, offset: int, chunk: Seq<u8>)
    requires
        0 <= offset <= output.written.len(),
        !output_delta(output, offset).missed_output,
        !output_delta(
            appended(output, chunk),
            output_delta(output, offset).next_offset,
        ).missed_output,
    ensures
        kept_since(output, offset) + kept_since(
            appended(output, chunk),
            output_delta(output, offset).next_offset,
        ) == appended(output, chunk).written.skip(offset),
{
    law_cursor_resumes(output, chunk);
    assert(output.written.skip(offset) + chunk == (output.written + chunk).skip(offset));
}

} // verus!
