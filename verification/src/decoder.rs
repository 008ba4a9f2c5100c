use std::sync::atomic::AtomicBool;
use vstd::prelude::*;

use crate::args::Mode;
use crate::frame::{Frame, PixelFormat};
use crate::queues::GenericSharedQueue;
use crate::shutdown::{request_stop, StageState};

verus! {

/// The source stage: it hands the frames of the decoded video to the conversion stage,
/// in the order in which they were decoded, and raises the stop flag after the last.
pub struct DecoderWrapper {}

/// The layout in which frames are asked of the decoder for a rendering mode.
pub open spec fn format_for(mode: Mode) -> PixelFormat {
    match mode {
        Mode::Gray => PixelFormat::Gray8,
        Mode::Color => PixelFormat::Rgb24,
    }
}

/// Row `row` of a plane of `len` bytes, whose rows begin `stride` bytes apart, has its
/// first `row_len` bytes inside the plane.
pub open spec fn row_fits(len: nat, stride: nat, row_len: nat, row: nat) -> bool {
    row * stride + row_len <= len
}

/// How many of the first `height` rows come before the first row that does not lie
/// inside the plane.
pub open spec fn whole_rows(len: nat, stride: nat, row_len: nat, height: nat) -> nat
    decreases height,
{
    if height == 0 {
        0
    } else {
        let before = whole_rows(len, stride, row_len, (height - 1) as nat);
        if before == height - 1 && row_fits(len, stride, row_len, (height - 1) as nat) {
            height
        } else {
            before
        }
    }
}

/// The first `row_len` bytes of each of the first `rows` rows of a plane, one row after
/// another.
pub open spec fn packed(plane: Seq<u8>, stride: nat, row_len: nat, rows: nat) -> Seq<u8>
    decreases rows,
{
    if rows == 0 {
        Seq::empty()
    } else {
        packed(plane, stride, row_len, (rows - 1) as nat) + plane.subrange(
            (rows - 1) * stride,
            (rows - 1) * stride + row_len,
        )
    }
}

/// Once a row does not lie inside the plane, no later row is counted.
pub proof fn lemma_whole_rows_end(len: nat, stride: nat, row_len: nat, row: nat, height: nat)
    requires
        whole_rows(len, stride, row_len, row) == row,
        !row_fits(len, stride, row_len, row),
        row < height,
    ensures
        whole_rows(len, stride, row_len, height) == row,
    decreases height,
{
    if height > row + 1 {
        lemma_whole_rows_end(len, stride, row_len, row, (height - 1) as nat);
    }
}

/// Rows that lie inside the plane pack to `row_len` bytes each.
pub proof fn lemma_packed_len(plane: Seq<u8>, stride: nat, row_len: nat, rows: nat)
    requires
        forall|row: nat| row < rows ==> row_fits(plane.len(), stride, row_len, row),
    ensures
        packed(plane, stride, row_len, rows).len() == rows * row_len,
    decreases rows,
{
    if rows > 0 {
        lemma_packed_len(plane, stride, row_len, (rows - 1) as nat);
        assert(row_fits(plane.len(), stride, row_len, (rows - 1) as nat));
        assert(0 <= (rows - 1) * stride) by (nonlinear_arith)
            requires
                rows >= 1,
        ;
        assert((rows - 1) * row_len + row_len == rows * row_len) by (nonlinear_arith);
    } else {
        assert(rows * row_len == 0) by (nonlinear_arith)
            requires
                rows == 0,
        ;
    }
}

impl DecoderWrapper {
    pub fn new() -> Self {
        Self {  }
    }

    /// The layout in which to ask the decoder for frames.
    pub fn pixel_format(mode: Mode) -> (format: PixelFormat)
        ensures
            format == format_for(mode),
    {
        match mode {
            Mode::Gray => PixelFormat::Gray8,
            Mode::Color => PixelFormat::Rgb24,
        }
    }

    /// The pixels of a decoded picture without the padding that may end each of its rows:
    /// the first `row_len` bytes of each row, one row after another, up to the first row
    /// that does not lie whole inside the plane.
    pub fn packed_rows(plane: &[u8], stride: usize, row_len: usize, height: usize) -> (data: Vec<u8>)
        ensures
            data@ == packed(
                plane@,
                stride as nat,
                row_len as nat,
                whole_rows(plane@.len(), stride as nat, row_len as nat, height as nat),
            ),
            data@.len() == whole_rows(plane@.len(), stride as nat, row_len as nat, height as nat)
                * row_len,
    {
        let mut data: Vec<u8> = Vec::new();
        let mut row: usize = 0;
        while row < height
            invariant
                row <= height,
                whole_rows(plane@.len(), stride as nat, row_len as nat, row as nat) == row,
                forall|before: nat|
                    before < row ==> row_fits(plane@.len(), stride as nat, row_len as nat, before),
                data@ == packed(plane@, stride as nat, row_len as nat, row as nat),
            decreases height - row,
        {
            assert(row * stride <= 0xffff_ffff_ffff_ffff * 0xffff_ffff_ffff_ffff) by (nonlinear_arith)
                requires
                    0 <= row <= 0xffff_ffff_ffff_ffff,
                    0 <= stride <= 0xffff_ffff_ffff_ffff,
            ;
            let start: u128 = (row as u128) * (stride as u128);
            if start + (row_len as u128) > plane.len() as u128 {
                proof {
                    lemma_whole_rows_end(
                        plane@.len(),
                        stride as nat,
                        row_len as nat,
                        row as nat,
                        height as nat,
                    );
                    lemma_packed_len(plane@, stride as nat, row_len as nat, row as nat);
                }
                return data;
            }
            let first: usize = start as usize;
            let ghost packed_before = data@;
            let mut taken: usize = 0;
            while taken < row_len
                invariant
                    taken <= row_len,
                    first + row_len <= plane.len(),
                    plane.len() == plane@.len(),
                    data@ == packed_before + plane@.subrange(first as int, first + taken),
                decreases row_len - taken,
            {
                data.push(plane[first + taken]);
                taken += 1;
                assert(plane@.subrange(first as int, first + taken) == plane@.subrange(
                    first as int,
                    first + taken - 1,
                ).push(plane@[first + taken - 1]));
            }
            row += 1;
        }
        proof {
            lemma_packed_len(plane@, stride as nat, row_len as nat, row as nat);
        }
        data
    }

    /// Hands one decoded picture on: it joins the tail of the queue as a raw frame in the
    /// layout of the mode.
    pub fn push_frame(
        &self,
        queue: &mut GenericSharedQueue<Frame>,
        data: Vec<u8>,
        width: u32,
        height: u32,
        mode: Mode,
    )
        ensures
            final(queue)@.len() == old(queue)@.len() + 1,
            final(queue)@.drop_last() == old(queue)@,
            final(queue)@.last().data == data,
            final(queue)@.last().width == width,
            final(queue)@.last().height == height,
            final(queue)@.last().format == format_for(mode),
    {
        let frame = Frame::new(data, width, height, Self::pixel_format(mode));
        queue.push(frame);
        assert(queue@.drop_last() == old(queue)@);
    }

    /// Ends the source stage when the input is exhausted: raises the stop flag, after
    /// which the stage has stopped. It has no queue of its own to drain.
    pub fn finish(&self, should_stop: &AtomicBool) -> (state: StageState)
        ensures
            state == StageState::Stopped,
    {
        request_stop(should_stop);
        StageState::Stopped
    }
}

} // verus!
