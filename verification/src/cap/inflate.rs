//! DEFLATE, by the `miniz_oxide` crate.
//!
//! A decompressor writes into a window of 32 KiB that also holds what it may refer
//! back to. Small components are unpacked into the window at once; large ones
//! run through it as through a ring.
use miniz_oxide::inflate::TINFLStatus;
use vstd::prelude::*;

use crate::limits::INFLATE_WINDOW;

verus! {

/// The state of a decompressor between two calls.
#[verifier::external_type_specification]
#[verifier::external_body]
pub struct ExDecompressorOxide(miniz_oxide::inflate::core::DecompressorOxide);

/// How a call of the decompressor ended.
#[derive(Debug, Clone, Copy, PartialEq, Eq, Structural)]
pub enum InflateStatus {
    /// The end of the stream.
    Done,
    /// The window is full, and there is more to come.
    HasMoreOutput,
    NeedsMoreInput,
    FailedCannotMakeProgress,
    BadParam,
    Adler32Mismatch,
    Failed,
}

/// What comes of a DEFLATE stream, from its beginning, through a ring of 32 KiB that
/// held `window` before. `Ok` is its content; bytes after its end do not matter. `Err`
/// is for a stream that is corrupt or cut off: it holds what comes in the calls before
/// the one that finds that.
pub uninterp spec fn unpacked(window: Seq<u8>, stream: Seq<u8>) -> Result<Seq<u8>, Seq<u8>>;

/// What is still to come from a decompressor in this state, through a ring that holds
/// `window`, the next byte going to `pos`, and `input` still to be read: `Ok` is all of
/// it, and `Err` what comes in the calls before the one that fails.
pub uninterp spec fn inflation(
    state: miniz_oxide::inflate::core::DecompressorOxide,
    window: Seq<u8>,
    pos: int,
    input: Seq<u8>,
) -> Result<Seq<u8>, Seq<u8>>;

/// The bytes of a stream, whether it ends well or not.
pub open spec fn flow_bytes(flow: Result<Seq<u8>, Seq<u8>>) -> Seq<u8> {
    match flow {
        Ok(x) => x,
        Err(x) => x,
    }
}

/// Two streams that end in the same way after as many bytes.
pub open spec fn alike(a: Result<Seq<u8>, Seq<u8>>, b: Result<Seq<u8>, Seq<u8>>) -> bool {
    &&& a is Ok <==> b is Ok
    &&& flow_bytes(a).len() == flow_bytes(b).len()
}

/// A window that nothing was written to.
pub open spec fn blank_window() -> Seq<u8> {
    Seq::new(32768, |i: int| 0u8)
}

/// What the ring held before does not show in what comes of the stream: it does not
/// refer back to before its beginning.
pub open spec fn self_contained(stream: Seq<u8>) -> bool {
    forall|a: Seq<u8>, b: Seq<u8>|
        a.len() == 32768 && b.len() == 32768 ==> #[trigger] unpacked(a, stream)
            == #[trigger] unpacked(b, stream)
}

/// A stream that is sound and unpacks to at most `max` bytes: its content.
pub open spec fn unpacked_within(stream: Seq<u8>, max: int) -> Option<Seq<u8>> {
    match unpacked(blank_window(), stream) {
        Ok(x) => if self_contained(stream) && x.len() <= max {
            Some(x)
        } else {
            None
        },
        Err(_) => None,
    }
}

/// `DecompressorOxide::new`: a decompressor at the beginning of a stream. Through a
/// ring it gives what the stream unpacks to there. Where the stream refers back to
/// before its beginning it takes bytes from what the ring held; how many bytes come,
/// and how they end, does not depend on them.
#[verifier::external_body]
pub(crate) fn fresh_decompressor() -> (r: miniz_oxide::inflate::core::DecompressorOxide)
    ensures
        forall|window: Seq<u8>, input: Seq<u8>|
            window.len() == 32768 ==> #[trigger] inflation(r, window, 0, input) == unpacked(
                window,
                input,
            ),
        forall|a: Seq<u8>, b: Seq<u8>, input: Seq<u8>|
            a.len() == 32768 && b.len() == 32768 ==> alike(
                #[trigger] inflation(r, a, 0, input),
                #[trigger] inflation(r, b, 0, input),
            ),
{
    miniz_oxide::inflate::core::DecompressorOxide::new()
}

/// What follows in front of what is still to come.
pub open spec fn followed_by(first: Seq<u8>, rest: Result<Seq<u8>, Seq<u8>>) -> Result<
    Seq<u8>,
    Seq<u8>,
> {
    match rest {
        Ok(x) => Ok(first + x),
        Err(x) => Err(first + x),
    }
}

/// What the call wrote.
pub open spec fn written(window: Seq<u8>, pos: usize, n: usize) -> Seq<u8> {
    window.subrange(pos as int, pos + n)
}

/// What one call leaves to come.
pub open spec fn one_call(
    status: InflateStatus,
    wrote: Seq<u8>,
    rest: Result<Seq<u8>, Seq<u8>>,
) -> Result<Seq<u8>, Seq<u8>> {
    match status {
        InflateStatus::Done => Ok(wrote),
        InflateStatus::HasMoreOutput => followed_by(wrote, rest),
        _ => Err(Seq::empty()),
    }
}

/// `miniz_oxide::inflate::core::decompress` on a ring, with all that is left of the
/// input. It reads from the front of `input` and writes from `pos` on. It asks for room
/// only when the window is full to its end. What it wrote is the beginning of what was
/// to come, and all of it where it is done; the rest comes from the state that it left,
/// from the front of the window. Any other end is a failure, and it never waits for
/// more input.
#[verifier::external_body]
pub(crate) fn decompress(
    state: &mut miniz_oxide::inflate::core::DecompressorOxide,
    input: &[u8],
    window: &mut [u8; INFLATE_WINDOW],
    pos: usize,
) -> (r: (InflateStatus, usize, usize))
    requires
        pos < 32768,
    ensures
        r.1 <= input@.len(),
        r.2 <= 32768 - pos,
        r.0 is HasMoreOutput ==> r.2 == 32768 - pos,
        r.0 !is NeedsMoreInput,
        inflation(*old(state), old(window)@, pos as int, input@) == one_call(
            r.0,
            written(final(window)@, pos, r.2),
            inflation(*final(state), final(window)@, 0, input@.skip(r.1 as int)),
        ),
{
    let (status, consumed, produced) = miniz_oxide::inflate::core::decompress(
        state, input, window, pos, 0);
    let status = match status {
        TINFLStatus::Done => InflateStatus::Done,
        TINFLStatus::HasMoreOutput => InflateStatus::HasMoreOutput,
        TINFLStatus::NeedsMoreInput => InflateStatus::NeedsMoreInput,
        TINFLStatus::FailedCannotMakeProgress => InflateStatus::FailedCannotMakeProgress,
        TINFLStatus::BadParam => InflateStatus::BadParam,
        TINFLStatus::Adler32Mismatch => InflateStatus::Adler32Mismatch,
        TINFLStatus::Failed => InflateStatus::Failed,
    };
    (status, consumed, produced)
}

/// `miniz_oxide::inflate::core::decompress` with a decompressor of its own
/// (`DecompressorOxide::new`), on a window that is to hold the whole output
/// (`TINFL_FLAG_USING_NON_WRAPPING_OUTPUT_BUF`). It is done where the stream is sound,
/// does not refer back to before its beginning and fits the window, and the output is
/// at the front, as long as the call says. It ends in another way where that is not so.
#[verifier::external_body]
pub(crate) fn decompress_whole(input: &[u8], window: &mut [u8; INFLATE_WINDOW]) -> (r: (
    InflateStatus,
    usize,
))
    ensures
        match unpacked_within(input@, 32768) {
            Some(x) => r.0 is Done && r.1 == x.len() && final(window)@.take(r.1 as int) == x,
            None => r.0 !is Done,
        },
{
    let mut state = miniz_oxide::inflate::core::DecompressorOxide::new();
    let (status, _, produced) = miniz_oxide::inflate::core::decompress(
        &mut state, input, window, 0,
        miniz_oxide::inflate::core::inflate_flags::TINFL_FLAG_USING_NON_WRAPPING_OUTPUT_BUF);
    let status = match status {
        TINFLStatus::Done => InflateStatus::Done,
        TINFLStatus::HasMoreOutput => InflateStatus::HasMoreOutput,
        TINFLStatus::NeedsMoreInput => InflateStatus::NeedsMoreInput,
        TINFLStatus::FailedCannotMakeProgress => InflateStatus::FailedCannotMakeProgress,
        TINFLStatus::BadParam => InflateStatus::BadParam,
        TINFLStatus::Adler32Mismatch => InflateStatus::Adler32Mismatch,
        TINFLStatus::Failed => InflateStatus::Failed,
    };
    (status, produced)
}

/// The working set of a decompressor: its window and its state. It is large;
/// make one and lend it.
pub struct InflateCtx {
    window: [u8; INFLATE_WINDOW],
    state: miniz_oxide::inflate::core::DecompressorOxide,
}

impl InflateCtx {
    /// The content of the window.
    pub closed spec fn window_of(self) -> Seq<u8> {
        self.window@
    }

    /// The window has a fixed size.
    pub proof fn lemma_window_len(self)
        ensures
            self.window_of().len() == 32768,
    {
    }

    /// What is still to come from the decompressor, with the next byte going to
    /// `pos` of the ring.
    pub closed spec fn to_come(self, pos: int, input: Seq<u8>) -> Result<Seq<u8>, Seq<u8>> {
        inflation(self.state, self.window@, pos, input)
    }

    /// A fresh working set.
    pub fn new() -> (r: InflateCtx)
        ensures
            r.window_of() == blank_window(),
            r.ready(),
    {
        let r: InflateCtx = InflateCtx {
            window: [0u8; INFLATE_WINDOW],
            state: fresh_decompressor(),
        };
        assert(r.window@ =~= blank_window());
        proof {
            r.lemma_ready();
        }
        r
    }

    /// The decompressor is at the beginning of a stream.
    pub open spec fn ready(self) -> bool {
        forall|input: Seq<u8>|
            {
                &&& #[trigger] self.to_come(0, input) == unpacked(self.window_of(), input)
                &&& alike(self.to_come(0, input), unpacked(blank_window(), input))
            }
    }

    /// Starts over. The window stays as it is.
    pub fn reset(&mut self)
        ensures
            final(self).window_of() == old(self).window_of(),
            final(self).ready(),
    {
        self.state = fresh_decompressor();
        proof {
            self.lemma_ready();
        }
    }

    /// A fresh decompressor is at the beginning of a stream.
    proof fn lemma_ready(self)
        requires
            forall|window: Seq<u8>, input: Seq<u8>|
                window.len() == 32768 ==> #[trigger] inflation(self.state, window, 0, input)
                    == unpacked(window, input),
            forall|a: Seq<u8>, b: Seq<u8>, input: Seq<u8>|
                a.len() == 32768 && b.len() == 32768 ==> alike(
                    #[trigger] inflation(self.state, a, 0, input),
                    #[trigger] inflation(self.state, b, 0, input),
                ),
        ensures
            self.ready(),
    {
        assert forall|input: Seq<u8>|
            {
                &&& #[trigger] self.to_come(0, input) == unpacked(self.window_of(), input)
                &&& alike(self.to_come(0, input), unpacked(blank_window(), input))
            } by {
            let blank = inflation(self.state, blank_window(), 0, input);
            assert(blank == unpacked(blank_window(), input));
            assert(alike(inflation(self.state, self.window@, 0, input), blank));
        }
    }
}

impl InflateCtx {
    /// Puts bytes at the front of the window.
    pub(crate) fn store(&mut self, bytes: &[u8])
        requires
            bytes@.len() <= 32768,
        ensures
            final(self).window_of() == bytes@ + old(self).window_of().skip(bytes@.len() as int),
            final(self).window_of().take(bytes@.len() as int) == bytes@,
    {
        let ghost before = self.window@;
        let mut i: usize = 0;
        while i < bytes.len()
            invariant
                i <= bytes@.len() <= 32768,
                before.len() == 32768,
                self.window@ =~= bytes@.take(i as int) + before.skip(i as int),
            decreases bytes@.len() - i,
        {
            self.window[i] = bytes[i];
            i = i + 1;
        }
        assert(bytes@.take(i as int) =~= bytes@);
        assert(self.window@.take(bytes@.len() as int) =~= bytes@);
    }

    /// Unpacks a whole stream to the front of the window, and returns its length;
    /// nothing where it is corrupt or does not fit.
    pub(crate) fn unpack(&mut self, stream: &[u8]) -> (r: Option<usize>)
        ensures
            match unpacked_within(stream@, 32768) {
                Some(x) => r matches Some(n) && n == x.len() && final(self).window_of().take(
                    n as int,
                ) == x,
                None => r is None,
            },
    {
        let (status, n) = decompress_whole(stream, &mut self.window);
        match status {
            InflateStatus::Done => Some(n),
            _ => None,
        }
    }

    /// Takes one step through the ring, with the next byte going to `pos`.
    pub(crate) fn step(&mut self, input: &[u8], pos: usize) -> (r: (InflateStatus, usize, usize))
        requires
            pos < 32768,
        ensures
            r.1 <= input@.len(),
            r.2 <= 32768 - pos,
            r.0 is HasMoreOutput ==> r.2 == 32768 - pos,
            r.0 !is NeedsMoreInput,
            old(self).to_come(pos as int, input@) == one_call(
                r.0,
                written(final(self).window_of(), pos, r.2),
                final(self).to_come(0, input@.skip(r.1 as int)),
            ),
    {
        decompress(&mut self.state, input, &mut self.window, pos)
    }

    /// A byte of the window.
    pub(crate) fn byte(&self, i: usize) -> (r: u8)
        requires
            i < 32768,
        ensures
            r == self.window_of()[i as int],
    {
        self.window[i]
    }

    /// The front of the window.
    pub(crate) fn front(&self, n: usize) -> (r: &[u8])
        requires
            n <= 32768,
        ensures
            r@ == self.window_of().take(n as int),
    {
        let window: &[u8] = &self.window;
        let r: &[u8] = &window[0..n];
        assert(r@ =~= self.window@.take(n as int));
        r
    }
}

impl Default for InflateCtx {
    fn default() -> (r: InflateCtx)
        ensures
            r.window_of() == blank_window(),
            r.ready(),
    {
        InflateCtx::new()
    }
}

} // verus!
