//! Clipboard contents and the frames in which they travel.
//!
//! A frame is one byte for the kind of content, then the content: a text in UTF-8, or
//! the width and the height of an image, eight bytes each, and its pixels.
use crate::bytes::{
    be_digits, be_value, law_be_digits_are_powers, lemma_be_digits_value, lemma_be_value_digits,
    lemma_pow256_u64, push_all, push_be, read_be,
};
use crate::text::text_from_utf8;
use vstd::arithmetic::power::pow;
use vstd::prelude::*;
use vstd::slice::{slice_subrange, slice_to_vec};
use vstd::utf8::{
    decode_utf8, decode_utf8_encode_utf8, encode_utf8, encode_utf8_decode_utf8,
    encode_utf8_valid_utf8, valid_utf8,
};

verus! {

/// First byte of a frame that holds a text.
pub const TEXT: u8 = 0;

/// First byte of a frame that holds an image.
pub const IMAGE: u8 = 1;

/// Bytes of a width or a height.
pub const DIMENSION_LEN: usize = 8;

/// Bytes in front of the pixels of a framed image.
pub const IMAGE_HEADER_LEN: usize = 17;

/// An image: its pixels and its dimensions.
#[derive(PartialEq, Clone, Debug)]
pub struct Image {
    pub bytes: Vec<u8>,
    pub width: usize,
    pub height: usize,
}

/// What a clipboard holds.
#[derive(PartialEq, Clone, Debug)]
pub enum Content {
    Text(String),
    Image(Image),
}

/// The value of an `Image`.
pub ghost struct ImageView {
    pub bytes: Seq<u8>,
    pub width: nat,
    pub height: nat,
}

/// The value of a `Content`.
pub ghost enum ContentView {
    Text(Seq<char>),
    Image(ImageView),
}

impl View for Image {
    type V = ImageView;

    open spec fn view(&self) -> ImageView {
        ImageView { bytes: self.bytes@, width: self.width as nat, height: self.height as nat }
    }
}

impl View for Content {
    type V = ContentView;

    open spec fn view(&self) -> ContentView {
        match self {
            Content::Text(text) => ContentView::Text(text@),
            Content::Image(image) => ContentView::Image(image@),
        }
    }
}

/// A content that a program can hold: the dimensions of an image fit in a `usize`.
pub open spec fn is_content(content: ContentView) -> bool {
    content matches ContentView::Image(image) ==> image.width <= usize::MAX && image.height
        <= usize::MAX
}

/// An image as bytes: its width, its height, its pixels.
pub open spec fn image_bytes(image: ImageView) -> Seq<u8> {
    be_digits(image.width, DIMENSION_LEN as nat) + be_digits(image.height, DIMENSION_LEN as nat)
        + image.bytes
}

/// The frame of a content.
pub open spec fn frame(content: ContentView) -> Seq<u8> {
    match content {
        ContentView::Text(text) => seq![TEXT] + encode_utf8(text),
        ContentView::Image(image) => seq![IMAGE] + image_bytes(image),
    }
}

/// What bytes are when they are read as a frame.
pub ghost enum Reading {
    /// The frame of a content.
    Content(ContentView),
    /// A frame of some other kind.
    Other,
    /// No frame.
    Malformed,
}

/// Reads bytes as a frame.
pub open spec fn reading(data: Seq<u8>) -> Reading {
    let len = data.len() as int;
    if len == 0 {
        Reading::Malformed
    } else if data[0] == TEXT {
        let text = data.subrange(1, len);
        if valid_utf8(text) {
            Reading::Content(ContentView::Text(decode_utf8(text)))
        } else {
            Reading::Malformed
        }
    } else if data[0] == IMAGE {
        if len < IMAGE_HEADER_LEN {
            Reading::Malformed
        } else {
            let image = ImageView {
                width: be_value(data.subrange(1, 9)),
                height: be_value(data.subrange(9, 17)),
                bytes: data.subrange(17, len),
            };
            if is_content(ContentView::Image(image)) {
                Reading::Content(ContentView::Image(image))
            } else {
                Reading::Malformed
            }
        }
    } else {
        Reading::Other
    }
}

/// The frame of an image is longer than its pixels by the header.
pub proof fn lemma_image_frame_len(image: ImageView)
    ensures
        frame(ContentView::Image(image)).len() == IMAGE_HEADER_LEN + image.bytes.len(),
{
    reveal_with_fuel(be_digits, 9);
}

/// Reading the frame of a content gives the content.
pub proof fn law_frame_reads_back(content: ContentView)
    requires
        is_content(content),
    ensures
        reading(frame(content)) == Reading::Content(content),
{
    let data = frame(content);
    let len = data.len() as int;
    match content {
        ContentView::Text(text) => {
            assert(data.subrange(1, len) =~= encode_utf8(text));
            encode_utf8_valid_utf8(text);
            encode_utf8_decode_utf8(text);
        },
        ContentView::Image(image) => {
            lemma_pow256_u64();
            lemma_be_digits_value(image.width, 8);
            lemma_be_digits_value(image.height, 8);
            assert(data.subrange(1, 9) =~= be_digits(image.width, 8));
            assert(data.subrange(9, 17) =~= be_digits(image.height, 8));
            assert(data.subrange(17, len) =~= image.bytes);
        },
    }
}

/// Bytes that read as a content are the frame of that content and of no other.
pub proof fn law_reading_is_framed(data: Seq<u8>, content: ContentView)
    requires
        reading(data) == Reading::Content(content),
    ensures
        is_content(content),
        frame(content) == data,
{
    let len = data.len() as int;
    match content {
        ContentView::Text(text) => {
            decode_utf8_encode_utf8(data.subrange(1, len));
            assert(frame(content) =~= data);
        },
        ContentView::Image(image) => {
            lemma_be_value_digits(data.subrange(1, 9));
            lemma_be_value_digits(data.subrange(9, 17));
            assert(frame(content) =~= data);
        },
    }
}

/// Different contents have different frames.
pub proof fn law_frames_differ(a: ContentView, b: ContentView)
    requires
        is_content(a),
        is_content(b),
        a != b,
    ensures
        frame(a) != frame(b),
{
    law_frame_reads_back(a);
    law_frame_reads_back(b);
}

/// The width, the height and the pixels of an image, one after the other.
impl From<Image> for Vec<u8> {
    fn from(val: Image) -> (vec: Vec<u8>)
        ensures
            vec@ == image_bytes(val@),
    {
        let mut vec: Vec<u8> = Vec::new();
        push_be(&mut vec, val.width as u64, DIMENSION_LEN);
        push_be(&mut vec, val.height as u64, DIMENSION_LEN);
        push_all(&mut vec, &val.bytes);
        vec
    }
}

/// Two equal vectors need not be the same vector, so `from` is described by the
/// contents of its result alone.
impl vstd::std_specs::convert::FromSpecImpl<Image> for Vec<u8> {
    open spec fn obeys_from_spec() -> bool {
        false
    }

    open spec fn from_spec(val: Image) -> Vec<u8> {
        choose|vec: Vec<u8>| vec@ == image_bytes(val@)
    }
}

impl Content {
    /// The frame of the content.
    pub fn encode(self) -> (data: Vec<u8>)
        ensures
            data@ == frame(self@),
            self matches Content::Text(text) ==> data@ == seq![0u8] + encode_utf8(text@),
            self matches Content::Image(image) ==> data@.len() == 17 + image.bytes@.len()
                && data@[0] == 1 && data@.subrange(17, data@.len() as int) == image.bytes@,
    {
        let mut data: Vec<u8> = Vec::new();
        match self {
            Content::Text(text) => {
                data.push(TEXT);
                push_all(&mut data, text.as_str().as_bytes());
                proof {
                    assert(data@ =~= frame(ContentView::Text(text@)));
                }
            },
            Content::Image(image) => {
                let ghost value = image@;
                data.push(IMAGE);
                let bytes: Vec<u8> = Vec::from(image);
                push_all(&mut data, &bytes);
                proof {
                    assert(data@ =~= frame(ContentView::Image(value)));
                    law_image_frame(value);
                }
            },
        }
        data
    }
}

/// Whether bytes are a frame.
pub fn is_well_formed(data: &[u8]) -> (well_formed: bool)
    ensures
        well_formed == !(reading(data@) is Malformed),
{
    if data.len() == 0 {
        return false;
    }
    if data[0] == TEXT {
        let text = slice_subrange(data, 1, data.len());
        return text_from_utf8(slice_to_vec(text)).is_some();
    }
    if data[0] == IMAGE {
        if data.len() < IMAGE_HEADER_LEN {
            return false;
        }
        let width = read_be(slice_subrange(data, 1, 9));
        let height = read_be(slice_subrange(data, 9, 17));
        return width <= usize::MAX as u64 && height <= usize::MAX as u64;
    }
    true
}

/// Reads a frame: its content, or nothing where the frame is of another kind.
pub fn decode(data: &[u8]) -> (content: Option<Content>)
    requires
        !(reading(data@) is Malformed),
    ensures
        match content {
            Some(c) => reading(data@) == Reading::Content(c@),
            None => reading(data@) is Other,
        },
        match content {
            Some(Content::Text(text)) => data@ == seq![0u8] + encode_utf8(text@),
            Some(Content::Image(image)) => data@[0] == 1 && image.width == be_value(
                data@.subrange(1, 9),
            ) && image.height == be_value(data@.subrange(9, 17)) && image.bytes@ == data@.subrange(
                17,
                data@.len() as int,
            ),
            None => data@[0] > 1,
        },
{
    if data[0] == TEXT {
        let text = slice_subrange(data, 1, data.len());
        match text_from_utf8(slice_to_vec(text)) {
            Some(text) => {
                proof {
                    law_reading_is_framed(data@, ContentView::Text(text@));
                }
                Some(Content::Text(text))
            },
            None => None,
        }
    } else if data[0] == IMAGE {
        let width = read_be(slice_subrange(data, 1, 9));
        let height = read_be(slice_subrange(data, 9, 17));
        let bytes = slice_to_vec(slice_subrange(data, 17, data.len()));
        Some(Content::Image(Image { bytes, width: width as usize, height: height as usize }))
    } else {
        None
    }
}

/// The value of an image or a text on the clipboard is all of it.
pub proof fn law_contents_are_kept(image: Image, text: String)
    ensures
        image@.bytes == image.bytes@,
        image@.width == image.width,
        image@.height == image.height,
        Content::Text(text)@ == ContentView::Text(text@),
        Content::Image(image)@ == ContentView::Image(image@),
{
}

/// Every text can travel, and every image whose width and height a program can hold.
pub proof fn law_what_can_travel(text: Seq<char>, image: ImageView)
    ensures
        is_content(ContentView::Text(text)),
        is_content(ContentView::Image(image)) <==> image.width <= usize::MAX && image.height
            <= usize::MAX,
{
}

/// A text travels as a zero and the text in UTF-8, all of it.
pub proof fn law_text_frame(text: Seq<char>)
    ensures
        frame(ContentView::Text(text)) == seq![0u8] + encode_utf8(text),
{
}

/// An image travels as a one, its width and its height in eight bytes each, the highest
/// power of 256 first, and its pixels, all of them.
pub proof fn law_image_frame(image: ImageView)
    ensures
        frame(ContentView::Image(image)) == seq![1u8] + image_bytes(image),
        frame(ContentView::Image(image)).len() == 17 + image.bytes.len(),
        frame(ContentView::Image(image))[0] == 1,
        forall|i: int|
            1 <= i < 9 ==> #[trigger] frame(ContentView::Image(image))[i] as int == (
            image.width as int / pow(256, (8 - i) as nat)) % 256,
        forall|i: int|
            9 <= i < 17 ==> #[trigger] frame(ContentView::Image(image))[i] as int == (
            image.height as int / pow(256, (16 - i) as nat)) % 256,
        frame(ContentView::Image(image)).subrange(17, 17 + image.bytes.len() as int)
            == image.bytes,
{
    law_be_digits_are_powers(image.width, 8);
    law_be_digits_are_powers(image.height, 8);
    let data = frame(ContentView::Image(image));
    assert forall|i: int| 1 <= i < 9 implies #[trigger] data[i] as int == (image.width as int
        / pow(256, (8 - i) as nat)) % 256 by {
        assert(data[i] == be_digits(image.width, 8)[i - 1]);
    }
    assert forall|i: int| 9 <= i < 17 implies #[trigger] data[i] as int == (image.height as int
        / pow(256, (16 - i) as nat)) % 256 by {
        assert(data[i] == be_digits(image.height, 8)[i - 9]);
    }
    assert(data.subrange(17, 17 + image.bytes.len() as int) =~= image.bytes);
}

/// The first byte decides what bytes are: a text behind a zero, in UTF-8 or else nothing;
/// an image behind a one, where its dimensions are there and can be held; some other
/// frame behind any other byte. Without a first byte there is no frame.
pub proof fn law_first_byte_decides(data: Seq<u8>)
    ensures
        data.len() == 0 ==> reading(data) is Malformed,
        data.len() > 0 && data[0] > 1 ==> reading(data) is Other,
        data.len() > 0 && data[0] == 0 ==> reading(data) == (if valid_utf8(data.skip(1)) {
            Reading::Content(ContentView::Text(decode_utf8(data.skip(1))))
        } else {
            Reading::Malformed
        }),
        data.len() > 0 && data[0] == 1 && data.len() < 17 ==> reading(data) is Malformed,
        data.len() >= 17 && data[0] == 1 ==> (reading(data) is Content <==> be_value(
            data.subrange(1, 9),
        ) <= usize::MAX && be_value(data.subrange(9, 17)) <= usize::MAX),
        data.len() >= 17 && data[0] == 1 ==> reading(data) is Content || reading(data) is Malformed,
        data.len() >= 17 && data[0] == 1 && reading(data) is Content ==> reading(data)
            == Reading::Content(
            ContentView::Image(
                (ImageView {
                    width: be_value(data.subrange(1, 9)),
                    height: be_value(data.subrange(9, 17)),
                    bytes: data.skip(17),
                }),
            ),
        ),
{
    if data.len() > 0 {
        assert(data.skip(1) =~= data.subrange(1, data.len() as int));
    }
    if data.len() >= 17 {
        assert(data.skip(17) =~= data.subrange(17, data.len() as int));
    }
}

} // verus!
