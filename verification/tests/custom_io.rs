use ffmpeg_player::custom_io::{
    callback_native_read, callback_native_seek, callback_native_write, next_packet, open_input,
    seek_range, seek_request, seek_status, status, OpenAction, OpenStage, SeekRequest,
    AVERROR_EOF, AVERROR_UNKNOWN, AVSEEK_SIZE, BUFFER_SIZE,
};

fn tag(name: &[u8; 4]) -> i32 {
    -(i32::from_le_bytes(*name))
}

#[test]
fn error_codes_are_tags() {
    assert_eq!(AVERROR_EOF, tag(b"EOF "));
    assert_eq!(AVERROR_UNKNOWN, tag(b"UNKN"));
    assert_eq!(AVSEEK_SIZE, 0x10000);
    assert_eq!(BUFFER_SIZE, 4096);
}

#[test]
fn reads_are_answered() {
    assert_eq!(callback_native_read(Ok(17)), 17);
    assert_eq!(callback_native_read(Ok(0)), AVERROR_EOF);
    assert_eq!(callback_native_read(Err(Some(5))), -5);
    assert_eq!(callback_native_read(Err(None)), AVERROR_UNKNOWN);
}

#[test]
fn writes_are_answered() {
    assert_eq!(callback_native_write(Ok(17)), 17);
    assert_eq!(callback_native_write(Ok(0)), 0);
    assert_eq!(callback_native_write(Err(Some(28))), -28);
    assert_eq!(callback_native_write(Err(None)), AVERROR_UNKNOWN);
}

#[test]
fn seeks_are_understood_and_answered() {
    assert_eq!(seek_request(7, 0), Ok(SeekRequest::Start(7)));
    assert_eq!(seek_request(-1, 0), Ok(SeekRequest::Start(u64::MAX)));
    assert_eq!(seek_request(-7, 1), Ok(SeekRequest::Current(-7)));
    assert_eq!(seek_request(-7, 2), Ok(SeekRequest::End(-7)));
    assert_eq!(seek_request(0, AVSEEK_SIZE), Ok(SeekRequest::StreamLen));
    assert_eq!(seek_request(0, 3), Err(AVERROR_UNKNOWN as i64));
    assert_eq!(callback_native_seek(Ok(1 << 40)), 1 << 40);
    assert_eq!(callback_native_seek(Err(Some(22))), -22);
    assert_eq!(callback_native_seek(Err(None)), AVERROR_UNKNOWN as i64);
}

#[test]
fn opening_goes_by_stages() {
    assert_eq!(
        open_input(OpenStage::OpenInput, 0),
        OpenAction::Proceed(OpenStage::FindStreamInfo)
    );
    assert_eq!(
        open_input(OpenStage::OpenInput, -2),
        OpenAction::Fail { code: -2, close: false }
    );
    assert_eq!(open_input(OpenStage::FindStreamInfo, 1), OpenAction::Ready);
    assert_eq!(
        open_input(OpenStage::FindStreamInfo, -3),
        OpenAction::Fail { code: -3, close: true }
    );
}

#[test]
fn requests_come_to_a_status() {
    assert_eq!(status(0), Ok(()));
    assert_eq!(status(1), Err(1));
    assert_eq!(status(-1), Err(-1));
    assert_eq!(seek_status(0), Ok(()));
    assert_eq!(seek_status(5), Ok(()));
    assert_eq!(seek_status(-5), Err(-5));
    assert_eq!(seek_range(None, None), (i64::MIN, i64::MAX));
    assert_eq!(seek_range(Some(3), Some(9)), (3, 9));
}

#[test]
fn packets_end_with_the_file() {
    assert_eq!(next_packet(0), Some(Ok(())));
    assert_eq!(next_packet(AVERROR_EOF), None);
    assert_eq!(next_packet(-11), Some(Err(-11)));
}
