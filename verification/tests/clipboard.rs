use cync::clipboard::{decode, is_well_formed, Content, Image};

fn image() -> Image {
    Image { bytes: vec![9, 8, 7, 6], width: 258, height: 1 }
}

#[test]
fn text_frame_is_a_zero_and_the_text() {
    let data = Content::Text("h\u{e9}".to_string()).encode();
    assert_eq!(data, vec![0, b'h', 0xc3, 0xa9]);
}

#[test]
fn empty_text_has_a_frame_of_one_byte() {
    let data = Content::Text(String::new()).encode();
    assert_eq!(data, vec![0]);
    assert_eq!(decode(&data), Some(Content::Text(String::new())));
}

#[test]
fn image_bytes_are_dimensions_then_pixels() {
    let bytes: Vec<u8> = Vec::from(image());
    assert_eq!(bytes, vec![0, 0, 0, 0, 0, 0, 1, 2, 0, 0, 0, 0, 0, 0, 0, 1, 9, 8, 7, 6]);
}

#[test]
fn image_frame_is_a_one_and_the_image() {
    let data = Content::Image(image()).encode();
    assert_eq!(data[0], 1);
    assert_eq!(data[1..].to_vec(), Vec::<u8>::from(image()));
}

#[test]
fn frames_read_back() {
    let contents = vec![
        Content::Text("some text\nwith two lines".to_string()),
        Content::Text("\u{1f4cb} \u{4e2d}".to_string()),
        Content::Image(image()),
        Content::Image(Image { bytes: vec![], width: usize::MAX, height: 0 }),
    ];
    for content in contents {
        let data = content.clone().encode();
        assert!(is_well_formed(&data));
        assert_eq!(decode(&data), Some(content));
    }
}

#[test]
fn what_reads_as_a_content_is_its_frame() {
    let data = vec![1, 0, 0, 0, 0, 0, 0, 0, 3, 0, 0, 0, 0, 0, 0, 0, 4, 42];
    let content = decode(&data).unwrap();
    assert_eq!(content, Content::Image(Image { bytes: vec![42], width: 3, height: 4 }));
    assert_eq!(content.encode(), data);
}

#[test]
fn different_contents_have_different_frames() {
    let text = Content::Text("a".to_string()).encode();
    let other = Content::Text("b".to_string()).encode();
    let image = Content::Image(image()).encode();
    assert_ne!(text, other);
    assert_ne!(text, image);
}

#[test]
fn frames_of_other_kinds_have_no_content() {
    assert!(is_well_formed(&[2]));
    assert_eq!(decode(&[2]), None);
    assert_eq!(decode(&[255, 1, 2, 3]), None);
}

#[test]
fn malformed_frames_are_recognised() {
    assert!(!is_well_formed(&[]));
    assert!(!is_well_formed(&[0, 0xff]));
    assert!(!is_well_formed(&[0, 0xc3]));
    assert!(!is_well_formed(&[1]));
    assert!(!is_well_formed(&[1; 16]));
    assert!(is_well_formed(&[1; 17]));
}
