use rlt::run::{DisplayStatus, StatusLabel};
use rlt::status::{Status, StatusKind};

#[test]
fn statuses_are_written_as_kind_and_code() {
    assert_eq!(Status::success(0).to_text(), "Success(0)");
    assert_eq!(Status::client_error(404).to_text(), "ClientError(404)");
    assert_eq!(Status::server_error(13).to_text(), "ServerError(13)");
    assert_eq!(Status::error(-7).to_text(), "Error(-7)");
    assert_eq!(Status::error(i64::MIN).to_text(), "Error(-9223372036854775808)");
    assert_eq!(Status::success(i64::MAX).to_text(), "Success(9223372036854775807)");
}

#[test]
fn a_status_keeps_its_kind_and_code() {
    let s = Status::server_error(503);
    assert_eq!(s.kind(), StatusKind::ServerError);
    assert_eq!(s.code(), 503);
}

#[test]
fn the_default_label_is_the_written_status() {
    assert_eq!(DisplayStatus.label(&Status::success(10)), "Success(10)");
}
