use core::str::FromStr;
use meshcore::basemgr::BaseManagerMethod;
use meshcore::child_view::ChildViewId;
use meshcore::errno::Errno;
use meshcore::kms::KeyType;
use meshcore::socket_file::Socket;
use meshcore::socket_file::SocketFile;
use meshcore::socket_file::SocketState;
use meshcore::style::Channel;

#[test]
fn channel_select() {
    let channels: [Channel; 4] = [Channel::Blue, Channel::Green, Channel::Red, Channel::Alpha];
    let red = [3f32; 8];
    let green = [2f32; 8];
    let blue = [1f32; 8];
    let alpha = [1f32; 8];
    let color = channels.map(|c| c.select(red, green, blue, alpha));
    assert_eq!(color, [blue, green, red, alpha]);
}

#[test]
fn basemgr_method_parses_known_names() {
    assert_eq!(
        BaseManagerMethod::from_str("RestartSession"),
        Ok(BaseManagerMethod::RestartSession)
    );
    assert_eq!(BaseManagerMethod::from_str("StartBasemgr"), Ok(BaseManagerMethod::StartBasemgr));
    assert_eq!(BaseManagerMethod::from_str("KillBasemgr"), Ok(BaseManagerMethod::KillBasemgr));
    assert!(BaseManagerMethod::from_str("Reboot").is_err());
}

#[test]
fn key_types_compare_by_kind() {
    assert_eq!(KeyType::SealingKey, KeyType::SealingKey);
    assert_ne!(KeyType::SealingKey, KeyType::AsymmetricPrivateKey);
}

#[test]
fn child_view_ids_order_by_token_value() {
    let a = ChildViewId::from_viewport_content_id(1);
    let b = ChildViewId::from_viewport_content_id(2);
    assert_eq!(a, ChildViewId::from_viewport_content_id(1));
    assert_ne!(a, b);
    assert!(a < b);
}

#[test]
fn sendmsg_moves_bytes_and_control_message() {
    let socket = Socket::new(SocketState::Active, 16);
    let mut file = SocketFile::new(socket);
    let written = file.sendmsg(&vec![1, 2, 3], Some(vec![9])).unwrap();
    assert_eq!(written, 3);
    let (bytes, control) = file.recvmsg(8).unwrap();
    assert_eq!(bytes, vec![1, 2, 3]);
    assert_eq!(control, Some(vec![9]));
}

#[test]
fn sendmsg_reports_eagain_on_a_full_buffer() {
    let socket = Socket::new(SocketState::Active, 2);
    let mut file = SocketFile::new(socket);
    assert_eq!(file.sendmsg(&vec![1, 2, 3], None), Err(Errno::EAGAIN));
    // The two bytes that fit were written before the would-block report.
    let (bytes, _control) = file.recvmsg(8).unwrap();
    assert_eq!(bytes, vec![1, 2]);
}

#[test]
fn sendmsg_fails_with_epipe_on_a_shutdown_socket() {
    let socket = Socket::new(SocketState::Shutdown, 16);
    let mut file = SocketFile::new(socket);
    assert_eq!(file.sendmsg(&vec![1], None), Err(Errno::EPIPE));
}

#[test]
fn recvmsg_reports_eagain_while_connected_and_empty() {
    let socket = Socket::new(SocketState::Active, 16);
    let mut file = SocketFile::new(socket);
    assert_eq!(file.recvmsg(8), Err(Errno::EAGAIN));
    // A shut-down socket yields what remains: nothing.
    let socket = Socket::new(SocketState::Shutdown, 16);
    let mut file = SocketFile::new(socket);
    let (bytes, control) = file.recvmsg(8).unwrap();
    assert!(bytes.is_empty());
    assert_eq!(control, None);
}
