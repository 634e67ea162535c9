//! Bracketed paste safety checks and PTY write preparation.

use vstd::prelude::*;
use vstd::string::StringSliceAdditionalSpecFns;

verus! {

/// The bytes `ESC [ 2 0 0 ~` that open a bracketed paste.
pub open spec fn spec_bracket_start() -> Seq<u8> {
    seq![0x1bu8, 0x5bu8, 0x32u8, 0x30u8, 0x30u8, 0x7eu8]
}

/// The bytes `ESC [ 2 0 1 ~` that close a bracketed paste.
pub open spec fn spec_bracket_end() -> Seq<u8> {
    seq![0x1bu8, 0x5bu8, 0x32u8, 0x30u8, 0x31u8, 0x7eu8]
}

/// Whether the closing delimiter occurs at byte offset `i` of `b`.
pub open spec fn bracket_end_at(b: Seq<u8>, i: int) -> bool {
    0 <= i && i + 6 <= b.len() && b.subrange(i, i + 6) == spec_bracket_end()
}

/// Whether the closing delimiter occurs anywhere in `b`.
pub open spec fn has_bracket_end(b: Seq<u8>) -> bool {
    exists|i: int| bracket_end_at(b, i)
}

/// `b` with every line feed turned into a carriage return.
pub open spec fn lf_to_cr(b: Seq<u8>) -> Seq<u8> {
    b.map_values(|x: u8| if x == 0x0au8 { 0x0du8 } else { x })
}

/// The bytes that a paste of `text` sends to the PTY, or `None` when the
/// text would break out of bracketed paste.
pub open spec fn spec_prepare_paste(text: Seq<u8>, bracketed: bool) -> Option<Seq<u8>> {
    if has_bracket_end(text) {
        None
    } else if bracketed {
        Some(spec_bracket_start() + text + spec_bracket_end())
    } else {
        Some(lf_to_cr(text))
    }
}

/// The bracketed-paste start delimiter.
const BRACKET_START: [u8; 6] = [0x1b, 0x5b, 0x32, 0x30, 0x30, 0x7e];

/// The bracketed-paste end delimiter. Text containing this sequence can
/// break out of bracketed-paste mode and must always be rejected.
const BRACKET_END: [u8; 6] = [0x1b, 0x5b, 0x32, 0x30, 0x31, 0x7e];

const NO_BYTES: [u8; 0] = [];

fn bracket_start_bytes() -> (r: &'static [u8])
    ensures
        r@ == spec_bracket_start(),
{
    let r: &'static [u8] = &BRACKET_START;
    assert(r@ == spec_bracket_start());
    r
}

fn bracket_end_bytes() -> (r: &'static [u8])
    ensures
        r@ == spec_bracket_end(),
{
    let r: &'static [u8] = &BRACKET_END;
    assert(r@ == spec_bracket_end());
    r
}

fn no_bytes() -> (r: &'static [u8])
    ensures
        r@ == Seq::<u8>::empty(),
{
    let r: &'static [u8] = &NO_BYTES;
    assert(r@ == Seq::<u8>::empty());
    r
}

/// Whether the closing delimiter occurs at offset `i` of `b`.
fn bracket_end_at_exec(b: &[u8], i: usize) -> (r: bool)
    requires
        i + 6 <= b@.len(),
    ensures
        r == bracket_end_at(b@, i as int),
{
    let r = b[i] == 0x1b && b[i + 1] == 0x5b && b[i + 2] == 0x32 && b[i + 3] == 0x30 && b[i + 4]
        == 0x31 && b[i + 5] == 0x7e;
    assert(r ==> b@.subrange(i as int, i + 6) =~= spec_bracket_end());
    assert(b@.subrange(i as int, i + 6) == spec_bracket_end() ==> {
        &&& b@[i as int] == b@.subrange(i as int, i + 6)[0]
        &&& b@[i + 1] == b@.subrange(i as int, i + 6)[1]
        &&& b@[i + 2] == b@.subrange(i as int, i + 6)[2]
        &&& b@[i + 3] == b@.subrange(i as int, i + 6)[3]
        &&& b@[i + 4] == b@.subrange(i as int, i + 6)[4]
        &&& b@[i + 5] == b@.subrange(i as int, i + 6)[5]
    });
    r
}

/// Whether the byte sequence `b` contains the bracket-paste end sequence.
fn bytes_contain_bracket_end(b: &[u8]) -> (r: bool)
    ensures
        r == has_bracket_end(b@),
{
    let n = b.len();
    if n < 6 {
        return false;
    }
    let mut i: usize = 0;
    while i <= n - 6
        invariant
            n == b@.len(),
            6 <= n,
            i <= n - 5,
            forall|j: int| 0 <= j < i ==> !bracket_end_at(b@, j),
        decreases n - i,
    {
        if bracket_end_at_exec(b, i) {
            return true;
        }
        i = i + 1;
    }
    assert forall|j: int| !bracket_end_at(b@, j) by {
        if 0 <= j && j + 6 <= n {
            assert(j < i);
        }
    }
    false
}

/// Return true if `text` contains the bracket-paste end sequence
/// (`ESC[201~`), which would allow an attacker to escape bracketed
/// paste mode.
pub fn contains_bracket_end(text: &str) -> (r: bool)
    ensures
        r == has_bracket_end(text.spec_bytes()),
{
    bytes_contain_bracket_end(text.as_bytes())
}

/// Prepare paste bytes for writing to the PTY.
///
/// When `bracketed` is true the text is wrapped in paste delimiters and
/// newlines are kept as-is (the application handles them inside brackets).
///
/// When `bracketed` is false, bare `\n` is converted to `\r` (the
/// terminal line discipline expects CR, not LF) and no delimiters are
/// added.
///
/// Returns `None` if the text contains the bracket-end escape sequence.
pub fn prepare_paste(text: &str, bracketed: bool) -> (r: Option<Vec<u8>>)
    ensures
        r is None <==> has_bracket_end(text.spec_bytes()),
        r matches Some(v) ==> spec_prepare_paste(text.spec_bytes(), bracketed) == Some(v@),
{
    let bytes = text.as_bytes();
    if bytes_contain_bracket_end(bytes) {
        return None;
    }
    let n = bytes.len();
    let cap = if bracketed {
        if n <= usize::MAX - 12 { n + 12 } else { n }
    } else {
        n
    };
    let mut out: Vec<u8> = Vec::with_capacity(cap);
    if bracketed {
        out.extend_from_slice(bracket_start_bytes());
        out.extend_from_slice(bytes);
        out.extend_from_slice(bracket_end_bytes());
        assert(out@ =~= spec_bracket_start() + bytes@ + spec_bracket_end());
    } else {
        let mut i: usize = 0;
        while i < n
            invariant
                n == bytes@.len(),
                0 <= i <= n,
                out@ =~= lf_to_cr(bytes@.subrange(0, i as int)),
            decreases n - i,
        {
            let b = bytes[i];
            out.push(if b == 0x0a { 0x0d } else { b });
            assert(bytes@.subrange(0, i + 1) =~= bytes@.subrange(0, i as int).push(b));
            i = i + 1;
        }
        assert(bytes@.subrange(0, n as int) =~= bytes@);
    }
    Some(out)
}

/// The three parts of a paste of `text`: opening delimiter, text, closing
/// delimiter (the delimiters empty when not bracketed).
pub open spec fn spec_bracket_paste(text: Seq<u8>, bracketed: bool) -> (Seq<u8>, Seq<u8>, Seq<u8>) {
    if bracketed {
        (spec_bracket_start(), text, spec_bracket_end())
    } else {
        (Seq::empty(), text, Seq::empty())
    }
}

/// Assemble the bracketed-paste byte sequences for `text`.
///
/// When `bracketed` is true, returns the opening delimiter, the text bytes,
/// and the closing delimiter.  When false, returns only the text bytes
/// (the other two slices are empty).
///
/// Note: this does NOT convert `\n` → `\r` for non-bracketed mode.
/// Prefer [`prepare_paste`] for the full paste pipeline.
pub fn bracket_paste(text: &str, bracketed: bool) -> (r: [&[u8]; 3])
    ensures
        (r[0]@, r[1]@, r[2]@) == spec_bracket_paste(text.spec_bytes(), bracketed),
{
    if bracketed {
        [bracket_start_bytes(), text.as_bytes(), bracket_end_bytes()]
    } else {
        [no_bytes(), text.as_bytes(), no_bytes()]
    }
}

/// Total byte length of a bracketed paste sequence.
pub fn bracket_paste_len(text: &str, bracketed: bool) -> (n: usize)
    requires
        text.spec_bytes().len() + 12 <= usize::MAX,
    ensures
        n == text.spec_bytes().len() + if bracketed { 12int } else { 0int },
{
    let parts = bracket_paste(text, bracketed);
    parts[0].len() + parts[1].len() + parts[2].len()
}


/// A bracketed paste is exactly the three parts that `bracket_paste` hands
/// out, joined; its length is what `bracket_paste_len` counts.
pub proof fn law_prepare_paste_bracketed_is_joined_parts(text: Seq<u8>)
    requires
        !has_bracket_end(text),
    ensures
        ({
            let parts = spec_bracket_paste(text, true);
            &&& spec_prepare_paste(text, true) == Some(parts.0 + parts.1 + parts.2)
            &&& (parts.0 + parts.1 + parts.2).len() == text.len() + 12
        }),
{
}

/// The three parts of a paste add up to the text plus 12 bytes of
/// delimiters when bracketed, and to the text alone otherwise: what
/// `bracket_paste_len` returns.
pub proof fn law_bracket_paste_parts_len(text: Seq<u8>, bracketed: bool)
    ensures
        ({
            let parts = spec_bracket_paste(text, bracketed);
            parts.0.len() + parts.1.len() + parts.2.len() == text.len() + if bracketed { 12int } else { 0int }
        }),
{
}

/// The unbracketed form keeps the length of the text, holds no line feed,
/// and changes nothing but line feeds.
pub proof fn law_unbracketed_paste_shape(text: Seq<u8>)
    ensures
        lf_to_cr(text).len() == text.len(),
        forall|i: int| 0 <= i < text.len() ==> #[trigger] lf_to_cr(text)[i] != 0x0au8,
        forall|i: int|
            0 <= i < text.len() && text[i] != 0x0au8 ==> #[trigger] lf_to_cr(text)[i] == text[i],
{
}

/// Turning line feeds into carriage returns can neither create nor remove
/// the bracket-end sequence: a prepared paste never carries one.
pub proof fn law_lf_to_cr_keeps_bracket_end(text: Seq<u8>)
    ensures
        has_bracket_end(lf_to_cr(text)) == has_bracket_end(text),
        spec_prepare_paste(text, false) matches Some(out) ==> !has_bracket_end(out),
{
    let m = lf_to_cr(text);
    assert forall|i: int| bracket_end_at(m, i) == bracket_end_at(text, i) by {
        if 0 <= i && i + 6 <= text.len() {
            let a = m.subrange(i, i + 6);
            let b = text.subrange(i, i + 6);
            assert forall|k: int| 0 <= k < 6 implies (a[k] == spec_bracket_end()[k] <==> b[k]
                == spec_bracket_end()[k]) by {
                assert(a[k] == m[i + k]);
                assert(b[k] == text[i + k]);
            }
            if a == spec_bracket_end() {
                assert(b =~= spec_bracket_end());
            }
            if b == spec_bracket_end() {
                assert(a =~= spec_bracket_end());
            }
        }
    }
    if has_bracket_end(m) {
        let i = choose|i: int| bracket_end_at(m, i);
        assert(bracket_end_at(text, i));
    }
    if has_bracket_end(text) {
        let i = choose|i: int| bracket_end_at(text, i);
        assert(bracket_end_at(m, i));
    }
}

/// What one non-blocking read of the helper's pipe returned.
#[derive(Clone, Copy, PartialEq, Eq, Structural, Debug)]
pub enum PipeRead {
    /// Some bytes.
    Data,
    /// End of file.
    Eof,
    /// Nothing yet.
    WouldBlock,
    /// Any other error.
    Failed,
}

/// What reading the pipe does next.
#[derive(Clone, Copy, PartialEq, Eq, Structural, Debug)]
pub enum PipeAction {
    /// Keep the bytes and read again.
    Append,
    /// Stop and hand out what was read.
    Finish,
    /// Sleep briefly, then read again.
    Wait,
    /// Stop without a result: the deadline passed before any byte came.
    GiveUp,
}

/// The next step of reading a paste from a pipe with a deadline: bytes are
/// kept; end of file or an error finishes; when nothing is ready, what was
/// read so far is handed out, else the reader gives up once past the
/// deadline and waits otherwise.
pub open spec fn spec_pipe_action(ev: PipeRead, have_data: bool, past_deadline: bool) -> PipeAction {
    match ev {
        PipeRead::Data => PipeAction::Append,
        PipeRead::Eof => PipeAction::Finish,
        PipeRead::Failed => PipeAction::Finish,
        PipeRead::WouldBlock => if have_data {
            PipeAction::Finish
        } else if past_deadline {
            PipeAction::GiveUp
        } else {
            PipeAction::Wait
        },
    }
}

/// Decide the next step of reading a paste from a pipe.
pub fn pipe_action(ev: PipeRead, have_data: bool, past_deadline: bool) -> (a: PipeAction)
    ensures
        a == spec_pipe_action(ev, have_data, past_deadline),
{
    match ev {
        PipeRead::Data => PipeAction::Append,
        PipeRead::Eof => PipeAction::Finish,
        PipeRead::Failed => PipeAction::Finish,
        PipeRead::WouldBlock => if have_data {
            PipeAction::Finish
        } else if past_deadline {
            PipeAction::GiveUp
        } else {
            PipeAction::Wait
        },
    }
}

} // verus!
