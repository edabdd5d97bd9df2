//! The client: it sends what comes to the clipboard, and receives what others send.
use crate::bytes::same_bytes;
use crate::clipboard::{
    decode, frame, is_content, is_well_formed, law_first_byte_decides, law_frame_reads_back,
    law_frames_differ, law_image_frame, law_reading_is_framed, lemma_image_frame_len, reading,
    Content, ContentView, Image, ImageView, Reading, IMAGE_HEADER_LEN,
};
use crate::crypto::{
    aes_gcm_decrypted, aes_gcm_encrypted, is_drawn_nonce, law_opening_decrypts, law_sealing_encrypts,
    opened, sealed, Cipher, MAX_PLAINTEXT, NONCE_LEN, TAG_LEN,
};
use vstd::prelude::*;
use vstd::slice::slice_to_vec;
use vstd::utf8::encode_utf8;

verus! {

/// Milliseconds between two looks at the clipboard.
pub const POLL_MILLIS: u64 = 1000;

/// What a look at the clipboard found.
pub enum Event {
    /// The text, where there is one.
    Text(Option<String>),
    /// The image, where there is one.
    Image(Option<Image>),
}

/// What to do next.
pub enum Action {
    /// Look for a text after the usual pause.
    Wait,
    /// Look for an image now.
    ReadImage,
    /// Send a message, then wait.
    Send(Vec<u8>),
}

/// The watch over a clipboard: the frame of the content that was seen last.
pub struct Watch {
    pub last: Vec<u8>,
}

/// The value of an `Event`.
pub ghost enum EventView {
    Text(Option<Seq<char>>),
    Image(Option<ImageView>),
}

impl View for Event {
    type V = EventView;

    open spec fn view(&self) -> EventView {
        match self {
            Event::Text(Some(text)) => EventView::Text(Some(text@)),
            Event::Text(None) => EventView::Text(None),
            Event::Image(Some(image)) => EventView::Image(Some(image@)),
            Event::Image(None) => EventView::Image(None),
        }
    }
}

/// The content that was found, if any.
pub open spec fn content_of(event: EventView) -> Option<ContentView> {
    match event {
        EventView::Text(Some(text)) => Some(ContentView::Text(text)),
        EventView::Image(Some(image)) => Some(ContentView::Image(image)),
        _ => None,
    }
}

/// What a look at the clipboard calls for.
pub ghost enum Outcome {
    Wait,
    ReadImage,
    /// Send the content that has this frame.
    Send(Seq<u8>),
}

/// What a look at the clipboard calls for: a content is sent when it is not the one that
/// was seen last, and an image is looked for where there is no text.
pub open spec fn outcome(last: Seq<u8>, event: EventView) -> Outcome {
    match content_of(event) {
        Some(content) => if frame(content) == last {
            Outcome::Wait
        } else {
            Outcome::Send(frame(content))
        },
        None => if event is Text {
            Outcome::ReadImage
        } else {
            Outcome::Wait
        },
    }
}

/// The frame that was seen last, after a look at the clipboard.
pub open spec fn last_after(last: Seq<u8>, event: EventView) -> Seq<u8> {
    match content_of(event) {
        Some(content) => frame(content),
        None => last,
    }
}

/// Whether what was found can be sent: encrypted, its frame has to fit in one message.
pub open spec fn fits(encrypted: bool, event: EventView) -> bool {
    encrypted ==> (content_of(event) matches Some(content) ==> frame(content).len()
        <= MAX_PLAINTEXT)
}

/// The key of a cipher, where there is one.
pub open spec fn key_of(cipher: Option<Cipher>) -> Option<Seq<u8>> {
    match cipher {
        Some(cipher) => Some(cipher.key@),
        None => None,
    }
}

/// The message that carries a frame: the frame itself, or the frame encrypted.
pub open spec fn message_of(key: Option<Seq<u8>>, nonce: Seq<u8>, data: Seq<u8>) -> Seq<u8> {
    match key {
        Some(key) => sealed(key, nonce, data),
        None => data,
    }
}

/// The length of the message that carries a frame: encrypted, it is longer by the nonce
/// and the tag.
pub open spec fn message_len(encrypted: bool, data: Seq<u8>) -> int {
    if encrypted {
        NONCE_LEN + data.len() + TAG_LEN
    } else {
        data.len() as int
    }
}

/// Whether a message carries a frame, under some nonce where it is encrypted.
pub open spec fn carries(key: Option<Seq<u8>>, message: Seq<u8>, data: Seq<u8>) -> bool {
    exists|nonce: Seq<u8>|
        nonce.len() == NONCE_LEN && message == #[trigger] message_of(key, nonce, data)
}

/// What a message is to its receiver.
pub ghost enum ReceivedView {
    /// A content for the clipboard.
    Content(ContentView),
    /// A frame of an unknown kind, to be ignored.
    Other,
    /// Not encrypted under the key, to be dropped.
    Undecryptable,
    /// No message of this protocol.
    Malformed,
}

/// What bytes are to a receiver without encryption.
pub open spec fn received_plain(data: Seq<u8>) -> ReceivedView {
    match reading(data) {
        Reading::Content(content) => ReceivedView::Content(content),
        Reading::Other => ReceivedView::Other,
        Reading::Malformed => ReceivedView::Malformed,
    }
}

/// What a message is to a receiver with a key, or without encryption.
pub open spec fn received(key: Option<Seq<u8>>, message: Seq<u8>) -> ReceivedView {
    match key {
        None => received_plain(message),
        Some(key) => if message.len() < NONCE_LEN {
            ReceivedView::Malformed
        } else {
            match opened(key, message) {
                Some(data) => received_plain(data),
                None => ReceivedView::Undecryptable,
            }
        },
    }
}

/// What came with a message.
pub enum Received {
    /// A content for the clipboard.
    Content(Content),
    /// A frame of an unknown kind, to be ignored.
    Other,
    /// Not encrypted under the key, to be dropped.
    Undecryptable,
    /// No message of this protocol.
    Malformed,
}

impl View for Received {
    type V = ReceivedView;

    open spec fn view(&self) -> ReceivedView {
        match self {
            Received::Content(content) => ReceivedView::Content(content@),
            Received::Other => ReceivedView::Other,
            Received::Undecryptable => ReceivedView::Undecryptable,
            Received::Malformed => ReceivedView::Malformed,
        }
    }
}

/// The first content that is seen is sent, whatever it is.
pub proof fn law_first_content_is_sent(event: EventView, content: ContentView)
    requires
        content_of(event) == Some(content),
    ensures
        outcome(Seq::empty(), event) == Outcome::Send(frame(content)),
{
    assert(frame(content).len() > 0);
}

/// A content that stays on the clipboard is sent only once.
pub proof fn law_unchanged_content_is_not_sent_again(last: Seq<u8>, event: EventView)
    requires
        content_of(event) is Some,
    ensures
        outcome(last_after(last, event), event) is Wait,
        last_after(last_after(last, event), event) == last_after(last, event),
{
}

/// A content that takes the place of another on the clipboard is sent.
pub proof fn law_changed_content_is_sent(
    last: Seq<u8>,
    before: EventView,
    after: EventView,
    old_content: ContentView,
    new_content: ContentView,
)
    requires
        content_of(before) == Some(old_content),
        content_of(after) == Some(new_content),
        is_content(old_content),
        is_content(new_content),
        old_content != new_content,
    ensures
        outcome(last_after(last, before), after) == Outcome::Send(frame(new_content)),
{
    law_frames_differ(old_content, new_content);
}

/// Without encryption, what one client sends is what every other receives.
pub proof fn law_plain_message_is_received(content: ContentView)
    requires
        is_content(content),
    ensures
        received(None, frame(content)) == ReceivedView::Content(content),
{
    law_frame_reads_back(content);
}

impl Watch {
    /// A watch that has seen nothing yet.
    pub fn new() -> (watch: Watch)
        ensures
            watch.last@ == Seq::<u8>::empty(),
    {
        Watch { last: Vec::new() }
    }
}

/// Whether what was found can be sent.
pub fn can_be_sent(cipher: &Option<Cipher>, event: &Event) -> (can: bool)
    ensures
        can == fits(cipher is Some, event@),
{
    if cipher.is_none() {
        return true;
    }
    match event {
        Event::Text(Some(text)) => {
            let len = text.as_str().as_bytes().len();
            (len as u64) < MAX_PLAINTEXT
        },
        Event::Image(Some(image)) => {
            proof {
                lemma_image_frame_len(image@);
            }
            image.bytes.len() as u64 <= MAX_PLAINTEXT - IMAGE_HEADER_LEN as u64
        },
        Event::Text(None) | Event::Image(None) => true,
    }
}

/// The message that carries a frame.
pub fn outgoing(cipher: &Option<Cipher>, data: &[u8]) -> (message: Vec<u8>)
    requires
        cipher is Some ==> data@.len() <= MAX_PLAINTEXT,
    ensures
        carries(key_of(*cipher), message@, data@),
        message@.len() == message_len(cipher is Some, data@),
        received(key_of(*cipher), message@) == received_plain(data@),
        cipher is None ==> message@ == data@,
        cipher matches Some(cipher) ==> message@.subrange(12, message@.len() as int)
            == aes_gcm_encrypted(cipher.key@, message@.subrange(0, 12), data@),
        cipher is Some ==> is_drawn_nonce(message@.subrange(0, 12)),
{
    match cipher {
        Some(cipher) => {
            let message = cipher.seal(data);
            proof {
                let nonce = choose|nonce: Seq<u8>|
                    nonce.len() == NONCE_LEN && message@ == #[trigger] sealed(
                        cipher.key@,
                        nonce,
                        data@,
                    );
                assert(message@ == message_of(Some(cipher.key@), nonce, data@));
            }
            message
        },
        None => {
            let message = slice_to_vec(data);
            proof {
                let nonce = Seq::new(NONCE_LEN as nat, |i: int| 0u8);
                assert(message@ == message_of(None, nonce, data@));
            }
            message
        },
    }
}

/// Goes on with the watch over the clipboard after a look at it. What is sent reaches a
/// client with the same key as the content that was seen.
pub fn read_clipboard(watch: &mut Watch, cipher: &Option<Cipher>, event: Event) -> (action: Action)
    requires
        outcome(old(watch).last@, event@) is Send ==> fits(cipher is Some, event@),
    ensures
        final(watch).last@ == last_after(old(watch).last@, event@),
        action is Wait <==> outcome(old(watch).last@, event@) is Wait,
        action is ReadImage <==> outcome(old(watch).last@, event@) is ReadImage,
        action matches Action::Send(message) ==> carries(
            key_of(*cipher),
            message@,
            outcome(old(watch).last@, event@)->Send_0,
        ),
        action matches Action::Send(message) ==> message@.len() == message_len(
            cipher is Some,
            outcome(old(watch).last@, event@)->Send_0,
        ),
        action matches Action::Send(message) ==> received(key_of(*cipher), message@)
            == ReceivedView::Content(content_of(event@)->Some_0),
        match event {
            Event::Text(None) => action is ReadImage && final(watch).last@ == old(watch).last@,
            Event::Image(None) => action is Wait && final(watch).last@ == old(watch).last@,
            Event::Text(Some(text)) => final(watch).last@ == seq![0u8] + encode_utf8(text@),
            Event::Image(Some(image)) => final(watch).last@ == frame(ContentView::Image(image@)),
        },
        event is Text && event->Text_0 is Some || event is Image && event->Image_0 is Some ==> if old(
            watch,
        ).last@ == final(watch).last@ {
            action is Wait
        } else {
            action is Send
        },
        action matches Action::Send(message) ==> match cipher {
            None => message@ == final(watch).last@,
            Some(cipher) => message@.subrange(12, message@.len() as int) == aes_gcm_encrypted(
                cipher.key@,
                message@.subrange(0, 12),
                final(watch).last@,
            ) && is_drawn_nonce(message@.subrange(0, 12)),
        },
{
    let ghost seen = event@;
    let content = match event {
        Event::Text(Some(text)) => Content::Text(text),
        Event::Image(Some(image)) => Content::Image(image),
        Event::Text(None) => return Action::ReadImage,
        Event::Image(None) => return Action::Wait,
    };
    let ghost value = content@;
    proof {
        assert(content_of(seen) == Some(value));
        law_frame_reads_back(value);
    }
    let data = content.encode();
    if same_bytes(&watch.last, &data) {
        return Action::Wait;
    }
    let message = outgoing(cipher, &data);
    proof {
        assert(outcome(old(watch).last@, seen) == Outcome::Send(data@));
        assert(received(key_of(*cipher), message@) == ReceivedView::Content(value));
    }
    watch.last = data;
    Action::Send(message)
}

/// Reads a message.
pub fn receive(cipher: &Option<Cipher>, message: &[u8]) -> (res: Received)
    ensures
        res@ == received(key_of(*cipher), message@),
{
    match cipher {
        Some(cipher) => {
            if message.len() < NONCE_LEN {
                return Received::Malformed;
            }
            match cipher.open(message) {
                Ok(data) => receive_plain(&data),
                Err(_) => Received::Undecryptable,
            }
        },
        None => receive_plain(message),
    }
}

/// Reads a message that is not encrypted, or no longer.
pub fn receive_plain(data: &[u8]) -> (res: Received)
    ensures
        res@ == received_plain(data@),
{
    if !is_well_formed(data) {
        return Received::Malformed;
    }
    match decode(data) {
        Some(content) => Received::Content(content),
        None => Received::Other,
    }
}

/// The value of what a look found is all of it.
pub proof fn law_findings_are_kept(text: String, image: Image)
    ensures
        Event::Text(Some(text))@ == EventView::Text(Some(text@)),
        Event::Text(None)@ == EventView::Text(None),
        Event::Image(Some(image))@ == EventView::Image(Some(image@)),
        Event::Image(None)@ == EventView::Image(None),
{
}

/// The value of what was received is all of it.
pub proof fn law_receipts_are_kept(content: Content, cipher: Cipher)
    ensures
        Received::Content(content)@ == ReceivedView::Content(content@),
        Received::Other@ == ReceivedView::Other,
        Received::Undecryptable@ == ReceivedView::Undecryptable,
        Received::Malformed@ == ReceivedView::Malformed,
        key_of(Some(cipher)) == Some(cipher.key@),
        key_of(None) is None,
{
}

/// Whatever was seen last, a look that finds no text is followed by a look for an image,
/// and one that finds neither is followed by the pause; neither makes the watch forget.
pub proof fn law_image_is_looked_for_without_a_text(last: Seq<u8>)
    ensures
        outcome(last, EventView::Text(None)) is ReadImage,
        last_after(last, EventView::Text(None)) == last,
        outcome(last, EventView::Image(None)) is Wait,
        last_after(last, EventView::Image(None)) == last,
{
}

/// Whatever was seen last, every text and every image that is found is sent as it is
/// exactly when it is not what was seen last, and is what was seen last from then on.
pub proof fn law_every_new_content_is_sent(last: Seq<u8>, text: Seq<char>, image: ImageView)
    ensures
        last_after(last, EventView::Text(Some(text))) == seq![0u8] + encode_utf8(text),
        last != seq![0u8] + encode_utf8(text) ==> outcome(last, EventView::Text(Some(text)))
            == Outcome::Send(seq![0u8] + encode_utf8(text)),
        last == seq![0u8] + encode_utf8(text) ==> outcome(
            last,
            EventView::Text(Some(text)),
        ) is Wait,
        last_after(last, EventView::Image(Some(image))) == frame(ContentView::Image(image)),
        last != frame(ContentView::Image(image)) ==> outcome(last, EventView::Image(Some(image)))
            == Outcome::Send(frame(ContentView::Image(image))),
        last == frame(ContentView::Image(image)) ==> outcome(
            last,
            EventView::Image(Some(image)),
        ) is Wait,
{
}

/// An image that takes the place of a text on the clipboard is looked for and sent.
pub proof fn law_image_after_a_text_is_sent(last: Seq<u8>, text: Seq<char>, image: ImageView)
    ensures
        ({
            let seen = last_after(last, EventView::Text(Some(text)));
            let looked = last_after(seen, EventView::Text(None));
            &&& outcome(seen, EventView::Text(None)) is ReadImage
            &&& outcome(looked, EventView::Image(Some(image))) == Outcome::Send(
                frame(ContentView::Image(image)),
            )
        }),
{
    law_image_frame(image);
    assert((seq![0u8] + encode_utf8(text))[0] == 0);
}

/// Without encryption everything can be sent; with it, everything whose frame is no
/// longer than the longest plaintext of AES-GCM.
pub proof fn law_what_can_be_sent(event: EventView, text: Seq<char>, image: ImageView)
    ensures
        fits(false, event),
        fits(true, EventView::Text(None)),
        fits(true, EventView::Image(None)),
        fits(true, EventView::Text(Some(text))) <==> 1 + encode_utf8(text).len()
            <= 0x10_0000_0000,
        fits(true, EventView::Image(Some(image))) <==> 17 + image.bytes.len() <= 0x10_0000_0000,
{
    law_image_frame(image);
}

/// A message is the frame that it carries, or, encrypted, a nonce of twelve bytes and
/// what AES-256-GCM makes of the frame under the key and that nonce.
pub proof fn law_message_carries_its_frame(key: Seq<u8>, message: Seq<u8>, data: Seq<u8>)
    ensures
        carries(None, message, data) <==> message == data,
        carries(Some(key), message, data) <==> message.len() >= 12 && message.skip(12)
            == aes_gcm_encrypted(key, message.take(12), data),
        message_len(false, data) == data.len(),
        message_len(true, data) == 12 + data.len() + 16,
{
    let zeros = Seq::new(12, |i: int| 0u8);
    assert(message_of(None, zeros, data) == data);
    if carries(Some(key), message, data) {
        let nonce = choose|nonce: Seq<u8>|
            nonce.len() == 12 && message == #[trigger] message_of(Some(key), nonce, data);
        law_sealing_encrypts(key, nonce, data);
        assert(message.take(12) =~= message.subrange(0, 12));
        assert(message.skip(12) =~= message.subrange(12, message.len() as int));
    }
    if message.len() >= 12 && message.skip(12) == aes_gcm_encrypted(key, message.take(12), data) {
        let nonce = message.take(12);
        law_sealing_encrypts(key, nonce, data);
        let other = message_of(Some(key), nonce, data);
        assert(other.take(12) =~= other.subrange(0, 12));
        assert(other.skip(12) =~= other.subrange(12, other.len() as int));
        assert(other =~= other.take(12) + other.skip(12));
        assert(message =~= message.take(12) + message.skip(12));
        assert(carries(Some(key), message, data));
    }
}

/// A receiver without encryption takes exactly the frames of contents for contents, and
/// ignores frames that begin with any byte above one.
pub proof fn law_frames_are_received(data: Seq<u8>, content: ContentView)
    ensures
        received(None, data) == ReceivedView::Content(content) <==> is_content(content) && data
            == frame(content),
        received(None, data) is Other <==> data.len() > 0 && data[0] > 1,
        received_plain(data) == received(None, data),
        !(received(None, data) is Undecryptable),
{
    law_first_byte_decides(data);
    if is_content(content) && data == frame(content) {
        law_frame_reads_back(content);
    }
    if received(None, data) == ReceivedView::Content(content) {
        law_reading_is_framed(data, content);
    }
}

/// A receiver with a key takes a message for what its plaintext is without encryption;
/// where AES-256-GCM refuses it, the message is dropped, whatever it holds. A message
/// without a whole nonce is none.
pub proof fn law_encrypted_messages_are_received(key: Seq<u8>, nonce: Seq<u8>, ciphertext: Seq<u8>)
    requires
        nonce.len() <= 12,
    ensures
        nonce.len() == 12 ==> received(Some(key), nonce + ciphertext) == (match aes_gcm_decrypted(
            key,
            nonce,
            ciphertext,
        ) {
            Some(data) => received(None, data),
            None => ReceivedView::Undecryptable,
        }),
        nonce.len() < 12 ==> received(Some(key), nonce) is Malformed,
{
    if nonce.len() == 12 {
        law_opening_decrypts(key, nonce, ciphertext);
    }
}

/// The clipboard is looked at once in a second.
pub proof fn law_a_look_every_second()
    ensures
        POLL_MILLIS == 1000,
{
}

} // verus!
