//! Letting the demuxer read and write through the player's own streams: what its requests mean,
//! and what it is answered.
//!
//! The demuxer speaks in plain numbers, as a library in C does. Negative numbers are errors: those
//! of the operating system negated, or one of a few of the demuxer's own.
use vstd::prelude::*;

verus! {

/// The demuxer's error for the end of a stream.
pub const AVERROR_EOF: i32 = -541478725;

/// The demuxer's error for whatever has no other.
pub const AVERROR_UNKNOWN: i32 = -1313558101;

/// The demuxer's way to ask for the length of a stream instead of moving in it.
pub const AVSEEK_SIZE: i32 = 65536;

/// The size of the buffer between the demuxer and a stream.
pub const BUFFER_SIZE: usize = 4096;

/// How an error is answered: by the operating system's number for it, negated, if it has one.
pub open spec fn error_code(os_error: Option<i32>) -> int {
    match os_error {
        Some(code) => -code,
        None => AVERROR_UNKNOWN as int,
    }
}

/// Whether the number of an error can be negated.
pub open spec fn is_answerable<T>(result: Result<T, Option<i32>>) -> bool {
    result matches Err(Some(code)) ==> code != i32::MIN
}

/// How an error is answered.
fn error_answer(os_error: Option<i32>) -> (answer: i32)
    requires
        os_error matches Some(code) ==> code != i32::MIN,
    ensures
        answer == error_code(os_error),
{
    match os_error {
        Some(code) => -code,
        None => AVERROR_UNKNOWN,
    }
}

/// What the demuxer is answered when it asked to read: how many bytes there are, or an error. No
/// bytes at all are the end.
pub fn callback_native_read(result: Result<usize, Option<i32>>) -> (answer: i32)
    requires
        result matches Ok(count) ==> count <= i32::MAX,
        is_answerable(result),
    ensures
        answer == match result {
            Ok(0) => AVERROR_EOF as int,
            Ok(count) => count as int,
            Err(os_error) => error_code(os_error),
        },
{
    match result {
        Ok(count) => if count == 0 {
            AVERROR_EOF
        } else {
            count as i32
        },
        Err(os_error) => error_answer(os_error),
    }
}

/// What the demuxer is answered when it asked to write: how many bytes were taken, or an error.
pub fn callback_native_write(result: Result<usize, Option<i32>>) -> (answer: i32)
    requires
        result matches Ok(count) ==> count <= i32::MAX,
        is_answerable(result),
    ensures
        answer == match result {
            Ok(count) => count as int,
            Err(os_error) => error_code(os_error),
        },
{
    match result {
        Ok(count) => count as i32,
        Err(os_error) => error_answer(os_error),
    }
}

/// What the demuxer wants when it asks to move in a stream.
#[derive(PartialEq, Eq, Structural, Debug, Clone, Copy)]
pub enum SeekRequest {
    /// The length of the stream.
    StreamLen,
    /// To move to a position from the start.
    Start(u64),
    /// To move by a distance.
    Current(i64),
    /// To move to a position from the end.
    End(i64),
}

/// What the demuxer wants. A request that is not known is refused with the answer in the error.
pub fn seek_request(offset: i64, whence: i32) -> (request: Result<SeekRequest, i64>)
    ensures
        request == if whence == AVSEEK_SIZE {
            Ok(SeekRequest::StreamLen)
        } else if whence == 0 {
            Ok(
                SeekRequest::Start(
                    if offset >= 0 {
                        offset as u64
                    } else {
                        (offset + u64::MAX + 1) as u64
                    },
                ),
            )
        } else if whence == 1 {
            Ok(SeekRequest::Current(offset))
        } else if whence == 2 {
            Ok(SeekRequest::End(offset))
        } else {
            Err(AVERROR_UNKNOWN as i64)
        },
{
    assert(offset < 0 ==> offset as u64 == offset + u64::MAX + 1) by (bit_vector);
    if whence == AVSEEK_SIZE {
        Ok(SeekRequest::StreamLen)
    } else if whence == 0 {
        Ok(
            SeekRequest::Start(
                #[verifier::truncate]
                (offset as u64),
            ),
        )
    } else if whence == 1 {
        Ok(SeekRequest::Current(offset))
    } else if whence == 2 {
        Ok(SeekRequest::End(offset))
    } else {
        Err(AVERROR_UNKNOWN as i64)
    }
}

/// What the demuxer is answered when it asked to move, or for the length: the position, or an
/// error.
pub fn callback_native_seek(result: Result<u64, Option<i32>>) -> (answer: i64)
    requires
        result matches Ok(position) ==> position <= i64::MAX,
        is_answerable(result),
    ensures
        answer == match result {
            Ok(position) => position as int,
            Err(os_error) => error_code(os_error),
        },
{
    match result {
        Ok(position) => position as i64,
        Err(os_error) => error_answer(os_error) as i64,
    }
}

/// How far the opening of a file has come.
#[derive(PartialEq, Eq, Structural, Debug, Clone, Copy)]
pub enum OpenStage {
    /// The demuxer is to open it.
    OpenInput,
    /// The demuxer is to look for its streams.
    FindStreamInfo,
}

/// What to do after a stage.
#[derive(PartialEq, Eq, Structural, Debug, Clone, Copy)]
pub enum OpenAction {
    /// The next stage.
    Proceed(OpenStage),
    /// The file is open.
    Ready,
    /// Opening failed with this error code; what was opened is to be closed again if `close`.
    Fail { code: i32, close: bool },
}

/// Decides how the opening of a file goes on after a stage that ended with `code`.
pub fn open_input(stage: OpenStage, code: i32) -> (action: OpenAction)
    ensures
        action == match stage {
            OpenStage::OpenInput => if code < 0 {
                OpenAction::Fail { code, close: false }
            } else {
                OpenAction::Proceed(OpenStage::FindStreamInfo)
            },
            OpenStage::FindStreamInfo => if code < 0 {
                OpenAction::Fail { code, close: true }
            } else {
                OpenAction::Ready
            },
        },
{
    match stage {
        OpenStage::OpenInput => if code < 0 {
            OpenAction::Fail { code, close: false }
        } else {
            OpenAction::Proceed(OpenStage::FindStreamInfo)
        },
        OpenStage::FindStreamInfo => if code < 0 {
            OpenAction::Fail { code, close: true }
        } else {
            OpenAction::Ready
        },
    }
}

/// What a request to pause, to play or to read a packet came to: zero is success.
pub fn status(code: i32) -> (res: Result<(), i32>)
    ensures
        code == 0 ==> res == Ok::<(), i32>(()),
        code != 0 ==> res == Err::<(), i32>(code),
{
    if code == 0 {
        Ok(())
    } else {
        Err(code)
    }
}

/// What a request to move in a file came to: what is not negative is success.
pub fn seek_status(code: i32) -> (res: Result<(), i32>)
    ensures
        code >= 0 ==> res == Ok::<(), i32>(()),
        code < 0 ==> res == Err::<(), i32>(code),
{
    if code >= 0 {
        Ok(())
    } else {
        Err(code)
    }
}

/// The range of timestamps that a request to move in a file may end in: where one end is open, as
/// far as timestamps go.
pub fn seek_range(start: Option<i64>, end: Option<i64>) -> (range: (i64, i64))
    ensures
        range.0 == (match start {
            Some(start) => start,
            None => i64::MIN,
        }),
        range.1 == (match end {
            Some(end) => end,
            None => i64::MAX,
        }),
{
    let start: i64 = match start {
        Some(start) => start,
        None => i64::MIN,
    };
    let end: i64 = match end {
        Some(end) => end,
        None => i64::MAX,
    };
    (start, end)
}

/// What an iterator over the packets of a file gives after a request to read one ended with `code`:
/// a packet, an error, or nothing at the end.
pub fn next_packet(code: i32) -> (res: Option<Result<(), i32>>)
    ensures
        code == 0 ==> res == Some(Ok::<(), i32>(())),
        code == AVERROR_EOF ==> res is None,
        code != 0 && code != AVERROR_EOF ==> res == Some(Err::<(), i32>(code)),
{
    if code == AVERROR_EOF {
        None
    } else {
        Some(status(code))
    }
}

/// The demuxer never takes the end of a stream, or an error, for data: as the errors of the
/// operating system are positive, an answer to a request to read is positive exactly if bytes
/// were read, and never zero.
pub proof fn law_read_answer_is_unambiguous(result: Result<usize, Option<i32>>, answer: i32)
    requires
        result matches Err(Some(code)) ==> code > 0,
        answer == match result {
            Ok(0) => AVERROR_EOF as int,
            Ok(count) => count as int,
            Err(os_error) => error_code(os_error),
        },
    ensures
        answer > 0 <==> result is Ok && result->Ok_0 > 0,
        answer != 0,
{
}

/// The demuxer never takes an error for a position: as the errors of the operating system are
/// positive, an answer to a request to move is negative exactly if that failed.
pub proof fn law_seek_answer_is_unambiguous(result: Result<u64, Option<i32>>, answer: i64)
    requires
        result matches Err(Some(code)) ==> code > 0,
        answer == match result {
            Ok(position) => position as int,
            Err(os_error) => error_code(os_error),
        },
    ensures
        answer < 0 <==> result is Err,
{
}

/// Errors of the operating system are told apart by what they are answered with, which is their
/// number negated; an error without a number is answered with the demuxer's own.
pub proof fn law_errors_keep_their_number(one: i32, other: i32)
    ensures
        error_code(Some(one)) + one == 0,
        error_code(Some(one)) == error_code(Some(other)) ==> one == other,
        error_code(None) == AVERROR_UNKNOWN,
{
}

/// The demuxer's own errors spell their name in four bytes, the first one lowest, negated. Its way
/// to ask for a length lies above all ways to move.
pub proof fn law_errors_spell_their_name()
    ensures
        -AVERROR_EOF == 'E' as int + 0x100 * ('O' as int) + 0x1_0000 * ('F' as int) + 0x100_0000 * (
        ' ' as int),
        -AVERROR_UNKNOWN == 'U' as int + 0x100 * ('N' as int) + 0x1_0000 * ('K' as int) + 0x100_0000
            * ('N' as int),
        AVSEEK_SIZE == 0x1_0000,
        BUFFER_SIZE == 4096,
{
}

} // verus!
