use cync::clipboard::{Content, Image};
use cync::connect::{
    can_be_sent, outgoing, read_clipboard, receive, receive_plain, Action, Event, Received, Watch,
};
use cync::crypto::Cipher;

fn text(s: &str) -> Event {
    Event::Text(Some(s.to_string()))
}

fn image() -> Image {
    Image { bytes: vec![1, 2, 3, 4], width: 1, height: 1 }
}

fn sent(action: Action) -> Vec<u8> {
    match action {
        Action::Send(message) => message,
        _ => panic!("nothing was sent"),
    }
}

fn content(received: Received) -> Content {
    match received {
        Received::Content(content) => content,
        _ => panic!("no content was received"),
    }
}

#[test]
fn first_content_is_sent() {
    let mut watch = Watch::new();
    let message = sent(read_clipboard(&mut watch, &None, text("hi")));
    assert_eq!(message, vec![0, b'h', b'i']);
    assert_eq!(watch.last, message);
}

#[test]
fn first_content_is_sent_though_it_is_empty() {
    let mut watch = Watch::new();
    assert_eq!(sent(read_clipboard(&mut watch, &None, text(""))), vec![0]);
}

#[test]
fn unchanged_content_is_sent_once() {
    let mut watch = Watch::new();
    sent(read_clipboard(&mut watch, &None, text("hi")));
    assert!(matches!(read_clipboard(&mut watch, &None, text("hi")), Action::Wait));
    assert!(matches!(read_clipboard(&mut watch, &None, text("hi")), Action::Wait));
}

#[test]
fn changed_content_is_sent() {
    let mut watch = Watch::new();
    sent(read_clipboard(&mut watch, &None, text("hi")));
    sent(read_clipboard(&mut watch, &None, text("ho")));
    sent(read_clipboard(&mut watch, &None, text("hi")));
}

#[test]
fn image_is_looked_for_where_there_is_no_text() {
    let mut watch = Watch::new();
    assert!(matches!(read_clipboard(&mut watch, &None, Event::Text(None)), Action::ReadImage));
    let message = sent(read_clipboard(&mut watch, &None, Event::Image(Some(image()))));
    assert_eq!(message[0], 1);
    assert!(matches!(
        read_clipboard(&mut watch, &None, Event::Image(Some(image()))),
        Action::Wait
    ));
}

#[test]
fn empty_clipboard_is_waited_on_and_nothing_is_forgotten() {
    let mut watch = Watch::new();
    sent(read_clipboard(&mut watch, &None, text("hi")));
    assert!(matches!(read_clipboard(&mut watch, &None, Event::Image(None)), Action::Wait));
    assert!(matches!(read_clipboard(&mut watch, &None, text("hi")), Action::Wait));
}

#[test]
fn what_is_sent_is_received() {
    let mut watch = Watch::new();
    let message = sent(read_clipboard(&mut watch, &None, text("hi")));
    assert_eq!(content(receive(&None, &message)), Content::Text("hi".to_string()));
    let message = sent(read_clipboard(&mut watch, &None, Event::Image(Some(image()))));
    assert_eq!(content(receive(&None, &message)), Content::Image(image()));
}

#[test]
fn what_is_sent_encrypted_is_received() {
    let cipher = Some(Cipher { key: [8; 32] });
    let mut watch = Watch::new();
    let message = sent(read_clipboard(&mut watch, &cipher, text("secret")));
    assert_eq!(message.len(), 12 + 7 + 16);
    assert_eq!(content(receive(&cipher, &message)), Content::Text("secret".to_string()));
    let message = sent(read_clipboard(&mut watch, &cipher, Event::Image(Some(image()))));
    assert_eq!(content(receive(&cipher, &message)), Content::Image(image()));
}

#[test]
fn last_content_is_kept_in_plain_form() {
    let cipher = Some(Cipher { key: [8; 32] });
    let mut watch = Watch::new();
    sent(read_clipboard(&mut watch, &cipher, text("secret")));
    assert_eq!(watch.last, b"\0secret".to_vec());
    assert!(matches!(read_clipboard(&mut watch, &cipher, text("secret")), Action::Wait));
}

#[test]
fn message_under_another_key_is_dropped() {
    let message = outgoing(&Some(Cipher { key: [8; 32] }), &[0, 65]);
    let received = receive(&Some(Cipher { key: [9; 32] }), &message);
    assert!(matches!(received, Received::Undecryptable));
}

#[test]
fn message_shorter_than_a_nonce_is_malformed() {
    let cipher = Some(Cipher { key: [8; 32] });
    assert!(matches!(receive(&cipher, &[0; 11]), Received::Malformed));
    assert!(matches!(receive(&cipher, &[0; 12]), Received::Undecryptable));
}

#[test]
fn plain_messages_of_every_kind() {
    assert!(matches!(receive(&None, &[]), Received::Malformed));
    assert!(matches!(receive(&None, &[0, 0xff]), Received::Malformed));
    assert!(matches!(receive(&None, &[1, 2, 3]), Received::Malformed));
    assert!(matches!(receive(&None, &[7]), Received::Other));
    assert!(matches!(receive_plain(&[0, 65]), Received::Content(_)));
}

#[test]
fn encrypted_garbage_is_malformed() {
    let cipher = Some(Cipher { key: [8; 32] });
    let message = outgoing(&cipher, &[]);
    assert!(matches!(receive(&cipher, &message), Received::Malformed));
    let message = outgoing(&cipher, &[5]);
    assert!(matches!(receive(&cipher, &message), Received::Other));
}

#[test]
fn ordinary_contents_can_be_sent() {
    for cipher in [None, Some(Cipher { key: [8; 32] })] {
        assert!(can_be_sent(&cipher, &text("hi")));
        assert!(can_be_sent(&cipher, &Event::Image(Some(image()))));
        assert!(can_be_sent(&cipher, &Event::Text(None)));
        assert!(can_be_sent(&cipher, &Event::Image(None)));
    }
}

#[test]
fn encrypted_message_is_longer_by_the_nonce_and_the_tag() {
    let data = vec![0, 65, 66];
    assert_eq!(outgoing(&None, &data).len(), 3);
    assert_eq!(outgoing(&Some(Cipher { key: [8; 32] }), &data).len(), 31);
    let mut watch = Watch::new();
    let cipher = Some(Cipher { key: [8; 32] });
    let message = sent(read_clipboard(&mut watch, &cipher, Event::Image(Some(image()))));
    assert_eq!(message.len(), 12 + 17 + 4 + 16);
}
