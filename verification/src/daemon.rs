//! The decisions of the daemon around one compression: the keystrokes that
//! copy the selection, what to do with what the clipboard held, with the
//! model's answer and with the clipboard write, and the tray icon drawn when
//! no icon file can be loaded.

use vstd::prelude::*;

use crate::ai_client::AiError;
use crate::hotkeys::{InputEvent, Key};

verus! {

/// The keystrokes that copy the current selection: Ctrl down, C down, C up, Ctrl up.
pub open spec fn copy_keystrokes() -> Seq<InputEvent> {
    seq![
        InputEvent::KeyPress(Key::ControlLeft),
        InputEvent::KeyPress(Key::KeyC),
        InputEvent::KeyRelease(Key::KeyC),
        InputEvent::KeyRelease(Key::ControlLeft),
    ]
}

/// The keystrokes to simulate so that the selection lands in the clipboard.
pub fn copy_shortcut() -> (events: Vec<InputEvent>)
    ensures
        events@ == copy_keystrokes(),
{
    let mut events: Vec<InputEvent> = Vec::new();
    events.push(InputEvent::KeyPress(Key::ControlLeft));
    events.push(InputEvent::KeyPress(Key::KeyC));
    events.push(InputEvent::KeyRelease(Key::KeyC));
    events.push(InputEvent::KeyRelease(Key::ControlLeft));
    assert(events@ =~= copy_keystrokes());
    events
}

/// The length of a text in UTF-8 bytes.
pub open spec fn byte_len(s: Seq<char>) -> nat {
    vstd::utf8::encode_utf8(s).len()
}

/// How one compression ended.
#[derive(Debug)]
pub enum CompressionOutcome {
    /// The clipboard held no text; nothing was sent.
    SkippedEmpty,
    /// The clipboard could not be read.
    ReadFailed(String),
    /// The model could not be asked, or gave no text.
    CompressFailed(AiError),
    /// The compressed text could not be written back.
    WriteFailed(String),
    /// The clipboard now holds the compressed text; the lengths are in bytes.
    Replaced { text_len: usize, compressed_len: usize },
}

/// What to do after the clipboard was read.
#[derive(Debug)]
pub enum AfterRead {
    /// Send this text to the model.
    Compress(String),
    /// Stop here.
    Stop(CompressionOutcome),
}

/// After reading the clipboard: an empty text is skipped, a failed read
/// stops the compression, and any other text is sent to the model.
pub fn after_clipboard_read(read: Result<String, String>) -> (next: AfterRead)
    ensures
        match read {
            Ok(t) => if t@.len() == 0 {
                next matches AfterRead::Stop(CompressionOutcome::SkippedEmpty)
            } else {
                next matches AfterRead::Compress(u) && u@ == t@
            },
            Err(e) => next matches AfterRead::Stop(CompressionOutcome::ReadFailed(f)) && f@ == e@,
        },
{
    match read {
        Ok(t) => if t.as_str().is_empty() {
            AfterRead::Stop(CompressionOutcome::SkippedEmpty)
        } else {
            AfterRead::Compress(t)
        },
        Err(e) => AfterRead::Stop(CompressionOutcome::ReadFailed(e)),
    }
}

/// What to do after the model answered.
#[derive(Debug)]
pub enum AfterCompress {
    /// Write this text to the clipboard.
    Write(String),
    /// Stop here.
    Stop(CompressionOutcome),
}

/// After asking the model: its text is written back to the clipboard, and a
/// failure stops the compression with that error.
pub fn after_compression(result: Result<String, AiError>) -> (next: AfterCompress)
    ensures
        match result {
            Ok(c) => next matches AfterCompress::Write(w) && w@ == c@,
            Err(e) => next matches AfterCompress::Stop(CompressionOutcome::CompressFailed(f))
                && f == e,
        },
{
    match result {
        Ok(c) => AfterCompress::Write(c),
        Err(e) => AfterCompress::Stop(CompressionOutcome::CompressFailed(e)),
    }
}

/// After writing the clipboard: a success reports the lengths, in bytes, of
/// the copied text and of the compressed text, and a failure reports its cause.
pub fn after_clipboard_write(text: &str, compressed: &str, written: Result<(), String>) -> (outcome:
    CompressionOutcome)
    ensures
        match written {
            Ok(_) => outcome matches CompressionOutcome::Replaced { text_len, compressed_len }
                && text_len == byte_len(text@) as usize && compressed_len == byte_len(
                compressed@,
            ) as usize,
            Err(e) => outcome matches CompressionOutcome::WriteFailed(f) && f@ == e@,
        },
{
    match written {
        Ok(()) => CompressionOutcome::Replaced {
            text_len: text.len(),
            compressed_len: compressed.len(),
        },
        Err(e) => CompressionOutcome::WriteFailed(e),
    }
}

/// The side, in pixels, of the icon drawn when no icon file can be loaded.
pub const FALLBACK_ICON_SIZE: u32 = 16;

/// Byte `i` of the fallback icon's RGBA pixels: every pixel is opaque
/// blue (0, 120, 215, 255).
pub open spec fn fallback_icon_byte(i: int) -> u8 {
    let r = i % 4;
    if r == 0 {
        0
    } else if r == 1 {
        120
    } else if r == 2 {
        215
    } else {
        255
    }
}

/// The RGBA pixels of a `size` by `size` square of opaque blue.
pub fn fallback_icon_rgba(size: u32) -> (pixels: Vec<u8>)
    requires
        size * size <= u32::MAX,
        4 * (size * size) <= usize::MAX,
    ensures
        pixels@.len() == 4 * (size * size),
        forall|i: int| 0 <= i < pixels@.len() ==> #[trigger] pixels@[i] == fallback_icon_byte(i),
{
    let count: u32 = size * size;
    let mut pixels: Vec<u8> = Vec::new();
    let mut k: u32 = 0;
    while k < count
        invariant
            count == size * size,
            4 * (size * size) <= usize::MAX,
            k <= count,
            pixels@.len() == 4 * k,
            forall|i: int| 0 <= i < pixels@.len() ==> #[trigger] pixels@[i] == fallback_icon_byte(i),
        decreases count - k,
    {
        let ghost base = 4 * k as int;
        assert(base % 4 == 0 && (base + 1) % 4 == 1 && (base + 2) % 4 == 2 && (base + 3) % 4 == 3);
        pixels.push(0u8);
        pixels.push(120u8);
        pixels.push(215u8);
        pixels.push(255u8);
        k = k + 1;
    }
    pixels
}

} // verus!
