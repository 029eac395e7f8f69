use vstd::prelude::*;
use vstd::slice::*;
use vstd::string::*;
use vstd::utf8::*;
use crate::error::DecodeError;
use crate::error::DecodeFault;
use crate::error::Failure;
use crate::error::Parsed;
use crate::error::fail;
use crate::parser::Parser;
use crate::parser::agrees;
use crate::parser::read_byte;

verus! {

/// The outcome of encoding: the buffer with the node's bytes behind it, or
/// nothing where the node cannot be written.
pub type CompileResult = Result<Vec<u8>, ()>;

/// A node that can be written at the end of a byte buffer.
pub trait Compilable {
    /// The bytes of the node, where it can be written.
    spec fn wire(&self) -> Option<Seq<u8>>;

    /// Appends the node's bytes to `buffer`.
    fn compile_bytecode(&self, buffer: Vec<u8>) -> (r: CompileResult)
        ensures
            compiled(r, buffer@, self.wire()),
    ;
}

/// The outcome `r` of encoding behind `before` is what `wire` asks for.
pub open spec fn compiled(r: CompileResult, before: Seq<u8>, wire: Option<Seq<u8>>) -> bool {
    match wire {
        Some(w) => r matches Ok(b) && b@ == before + w,
        None => r is Err,
    }
}

/// The byte that marks an escaped byte.
pub const ESCAPE: u8 = 0xFF;

/// The byte that ends a free-form string.
pub const SENTINEL: u8 = 0x00;

/// One raw byte as it stands on the wire: the two reserved bytes follow an
/// escape byte, every other byte stands for itself.
pub open spec fn escape_byte(b: u8) -> Seq<u8> {
    if b == SENTINEL || b == ESCAPE {
        seq![ESCAPE, b]
    } else {
        seq![b]
    }
}

/// Raw bytes as they stand on the wire.
pub open spec fn escape(raw: Seq<u8>) -> Seq<u8>
    decreases raw.len(),
{
    if raw.len() == 0 {
        Seq::<u8>::empty()
    } else {
        escape_byte(raw[0]) + escape(raw.drop_first())
    }
}

/// Reads `n` raw bytes from their escaped form at `pos`, behind the raw bytes
/// `acc` already read.
pub open spec fn unescape_counted(s: Seq<u8>, pos: int, n: nat, acc: Seq<u8>) -> Parsed<Seq<u8>>
    decreases n,
{
    if n == 0 {
        Ok((acc, pos))
    } else if !(0 <= pos < s.len()) {
        fail(DecodeFault::UnexpectedEnd, pos)
    } else if s[pos] == ESCAPE {
        if pos + 1 >= s.len() {
            fail(DecodeFault::UnexpectedEnd, pos + 1)
        } else if s[pos + 1] == SENTINEL || s[pos + 1] == ESCAPE {
            unescape_counted(s, pos + 2, (n - 1) as nat, acc.push(s[pos + 1]))
        } else {
            fail(DecodeFault::InvalidEscape, pos + 1)
        }
    } else if s[pos] == SENTINEL {
        fail(DecodeFault::InvalidEscape, pos)
    } else {
        unescape_counted(s, pos + 1, (n - 1) as nat, acc.push(s[pos]))
    }
}

/// Reads raw bytes from their escaped form at `pos` up to the first unescaped
/// sentinel, behind the raw bytes `acc` already read. The offset in the
/// outcome is behind the sentinel.
pub open spec fn unescape_terminated(s: Seq<u8>, pos: int, acc: Seq<u8>) -> Parsed<Seq<u8>>
    decreases s.len() - pos,
{
    if !(0 <= pos < s.len()) {
        fail(DecodeFault::UnexpectedEnd, pos)
    } else if s[pos] == SENTINEL {
        Ok((acc, pos + 1))
    } else if s[pos] == ESCAPE {
        if pos + 1 >= s.len() {
            fail(DecodeFault::UnexpectedEnd, pos + 1)
        } else if s[pos + 1] == SENTINEL || s[pos + 1] == ESCAPE {
            unescape_terminated(s, pos + 2, acc.push(s[pos + 1]))
        } else {
            fail(DecodeFault::InvalidEscape, pos + 1)
        }
    } else {
        unescape_terminated(s, pos + 1, acc.push(s[pos]))
    }
}

/// Whether a string fits the one length byte of its encoding.
pub open spec fn text_fits(chars: Seq<char>) -> bool {
    encode_utf8(chars).len() <= 255
}

/// A counted string on the wire: the number of its UTF-8 bytes, then those
/// bytes escaped.
pub open spec fn wire_text(chars: Seq<char>) -> Seq<u8> {
    seq![encode_utf8(chars).len() as u8] + escape(encode_utf8(chars))
}

/// A free-form string on the wire: its UTF-8 bytes escaped, then the sentinel.
pub open spec fn wire_free_text(chars: Seq<char>) -> Seq<u8> {
    escape(encode_utf8(chars)) + seq![SENTINEL]
}

/// Reads a counted string at `pos`.
pub open spec fn read_text(s: Seq<u8>, pos: int) -> Parsed<Seq<char>> {
    match read_byte(s, pos) {
        Err(e) => Err(e),
        Ok((n, p1)) => match unescape_counted(s, p1, n as nat, Seq::<u8>::empty()) {
            Err(e) => Err(e),
            Ok((raw, p2)) => if valid_utf8(raw) {
                Ok((decode_utf8(raw), p2))
            } else {
                fail(DecodeFault::InvalidUtf8, p1)
            },
        },
    }
}

/// Reads a free-form string at `pos`.
pub open spec fn read_free_text(s: Seq<u8>, pos: int) -> Parsed<Seq<char>> {
    match unescape_terminated(s, pos, Seq::<u8>::empty()) {
        Err(e) => Err(e),
        Ok((raw, p2)) => if valid_utf8(raw) {
            Ok((decode_utf8(raw), p2))
        } else {
            fail(DecodeFault::InvalidUtf8, pos)
        },
    }
}

/// `String::from_utf8` of std: where the bytes are UTF-8 it hands back the
/// string made of exactly these bytes, and nothing where they are not.
#[verifier::external_body]
pub(crate) fn string_from_utf8(bytes: Vec<u8>) -> (r: Option<String>)
    ensures
        r is Some <==> valid_utf8(bytes@),
        r matches Some(s) ==> encode_utf8(s@) == bytes@,
{
    String::from_utf8(bytes).ok()
}

/// `char::encode_utf8` of std: the UTF-8 bytes of one character.
#[verifier::external_body]
pub(crate) fn char_to_utf8(c: char) -> (r: Vec<u8>)
    ensures
        r@ == encode_utf8(seq![c]),
{
    let mut buf = [0u8; 4];
    c.encode_utf8(&mut buf).as_bytes().to_vec()
}

/// Appends the escaped form of `raw` to `buffer`.
pub fn compile_escaped(buffer: Vec<u8>, raw: &[u8]) -> (r: Vec<u8>)
    ensures
        r@ == buffer@ + escape(raw@),
{
    let mut out = buffer;
    let mut i: usize = 0;
    assert(raw@.skip(0) =~= raw@);
    while i < raw.len()
        invariant
            i <= raw.len(),
            buffer@ + escape(raw@) == out@ + escape(raw@.skip(i as int)),
        decreases raw.len() - i,
    {
        let b = raw[i];
        let ghost before = out@;
        proof {
            let rest = raw@.skip(i as int);
            assert(rest.drop_first() =~= raw@.skip(i + 1));
            assert(rest[0] == b);
            assert(out@ + escape(rest) =~= out@ + escape_byte(b) + escape(rest.drop_first()));
        }
        if b == SENTINEL || b == ESCAPE {
            out.push(ESCAPE);
            out.push(b);
        } else {
            out.push(b);
        }
        assert(out@ =~= before + escape_byte(b));
        i += 1;
    }
    proof {
        assert(raw@.skip(raw@.len() as int) =~= Seq::<u8>::empty());
        assert(out@ + Seq::<u8>::empty() =~= out@);
    }
    out
}

/// Appends a counted string to `buffer`; nothing where it has over 255 bytes.
pub fn compile_text(buffer: Vec<u8>, string: &str) -> (r: CompileResult)
    ensures
        compiled(r, buffer@, if text_fits(string@) { Some(wire_text(string@)) } else { None }),
{
    let raw = string.as_bytes();
    if raw.len() > 255 {
        return Err(());
    }
    let mut out = buffer;
    out.push(raw.len() as u8);
    let out = compile_escaped(out, raw);
    assert(out@ =~= buffer@ + wire_text(string@));
    Ok(out)
}

/// Appends a free-form string to `buffer`.
pub fn compile_free_text(buffer: Vec<u8>, string: &str) -> (r: Vec<u8>)
    ensures
        r@ == buffer@ + wire_free_text(string@),
{
    let mut out = compile_escaped(buffer, string.as_bytes());
    out.push(SENTINEL);
    assert(out@ =~= buffer@ + wire_free_text(string@));
    out
}

/// Reads a counted string.
#[verifier::loop_isolation(false)]
pub fn visit_text<'a>(parser: Parser<'a>) -> (r: Result<(Parser<'a>, String), DecodeError>)
    ensures
        agrees(r, read_text(parser.bytes@, parser.pointer as int), parser),
{
    let (p1, n) = match parser.take_byte() {
        Ok(v) => v,
        Err(e) => {
            return Err(e);
        },
    };
    let bytes = parser.bytes;
    let ghost s = bytes@;
    let mut raw: Vec<u8> = Vec::new();
    let mut pos: usize = p1.pointer;
    let mut i: u8 = 0;
    while i < n
        invariant
            bytes@ == s,
            p1.pointer <= pos <= s.len(),
            i <= n,
            unescape_counted(s, p1.pointer as int, n as nat, Seq::<u8>::empty())
                == unescape_counted(s, pos as int, (n - i) as nat, raw@),
        decreases n - i,
    {
        if pos >= bytes.len() {
            return Err(DecodeError { fault: DecodeFault::UnexpectedEnd, at: pos });
        }
        let b = bytes[pos];
        if b == ESCAPE {
            if pos + 1 >= bytes.len() {
                return Err(DecodeError { fault: DecodeFault::UnexpectedEnd, at: pos + 1 });
            }
            let c = bytes[pos + 1];
            if c == SENTINEL || c == ESCAPE {
                raw.push(c);
                pos = pos + 2;
            } else {
                return Err(DecodeError { fault: DecodeFault::InvalidEscape, at: pos + 1 });
            }
        } else if b == SENTINEL {
            return Err(DecodeError { fault: DecodeFault::InvalidEscape, at: pos });
        } else {
            raw.push(b);
            pos = pos + 1;
        }
        i = i + 1;
    }
    let ghost raw_bytes = raw@;
    match string_from_utf8(raw) {
        Some(text) => {
            proof {
                encode_utf8_decode_utf8(text@);
            }
            Ok((parser.at(pos), text))
        },
        None => Err(DecodeError { fault: DecodeFault::InvalidUtf8, at: p1.pointer }),
    }
}

/// Reads a free-form string.
#[verifier::loop_isolation(false)]
pub fn visit_free_text<'a>(parser: Parser<'a>) -> (r: Result<(Parser<'a>, String), DecodeError>)
    ensures
        agrees(r, read_free_text(parser.bytes@, parser.pointer as int), parser),
{
    let bytes = parser.bytes;
    let ghost s = bytes@;
    let mut raw: Vec<u8> = Vec::new();
    let mut pos: usize = parser.pointer;
    let mut done = false;
    while !done
        invariant
            parser.pointer <= pos,
            !done ==> unescape_terminated(s, parser.pointer as int, Seq::<u8>::empty())
                == unescape_terminated(s, pos as int, raw@),
            done ==> parser.pointer < pos <= s.len() && unescape_terminated(
                s,
                parser.pointer as int,
                Seq::<u8>::empty(),
            ) == Ok::<(Seq<u8>, int), Failure>((raw@, pos as int)),
        decreases s.len() - pos + (if done { 0int } else { 1int }),
    {
        if pos >= bytes.len() {
            return Err(DecodeError { fault: DecodeFault::UnexpectedEnd, at: pos });
        }
        let b = bytes[pos];
        if b == SENTINEL {
            pos = pos + 1;
            done = true;
        } else if b == ESCAPE {
            if pos + 1 >= bytes.len() {
                return Err(DecodeError { fault: DecodeFault::UnexpectedEnd, at: pos + 1 });
            }
            let c = bytes[pos + 1];
            if c == SENTINEL || c == ESCAPE {
                raw.push(c);
                pos = pos + 2;
            } else {
                return Err(DecodeError { fault: DecodeFault::InvalidEscape, at: pos + 1 });
            }
        } else {
            raw.push(b);
            pos = pos + 1;
        }
    }
    match string_from_utf8(raw) {
        Some(text) => {
            proof {
                encode_utf8_decode_utf8(text@);
            }
            Ok((parser.at(pos), text))
        },
        None => Err(DecodeError { fault: DecodeFault::InvalidUtf8, at: parser.pointer }),
    }
}

/// The bytes `w` stand in `s` at `pos`.
pub open spec fn holds_at(s: Seq<u8>, pos: int, w: Seq<u8>) -> bool {
    0 <= pos && pos + w.len() <= s.len() && s.subrange(pos, pos + w.len()) == w
}

/// Where two byte strings stand one behind the other, each stands at its place.
pub proof fn lemma_holds_split(s: Seq<u8>, pos: int, a: Seq<u8>, b: Seq<u8>)
    requires
        holds_at(s, pos, a + b),
    ensures
        holds_at(s, pos, a),
        holds_at(s, pos + a.len(), b),
{
    let w = a + b;
    assert(s.subrange(pos, pos + a.len()) =~= w.subrange(0, a.len() as int));
    assert(w.subrange(0, a.len() as int) =~= a);
    assert(s.subrange(pos + a.len(), pos + a.len() + b.len()) =~= w.subrange(
        a.len() as int,
        w.len() as int,
    ));
    assert(w.subrange(a.len() as int, w.len() as int) =~= b);
}

/// A byte string that stands at `pos` has its first byte there.
pub proof fn lemma_holds_first(s: Seq<u8>, pos: int, w: Seq<u8>)
    requires
        holds_at(s, pos, w),
        w.len() > 0,
    ensures
        0 <= pos < s.len(),
        s[pos] == w[0],
{
    assert(s.subrange(pos, pos + w.len())[0] == s[pos]);
}

/// Reading the escaped form of `raw` gives `raw` back.
pub proof fn lemma_unescape_counted(s: Seq<u8>, pos: int, raw: Seq<u8>, acc: Seq<u8>)
    requires
        holds_at(s, pos, escape(raw)),
    ensures
        unescape_counted(s, pos, raw.len(), acc) == Ok::<(Seq<u8>, int), Failure>(
            (acc + raw, pos + escape(raw).len()),
        ),
    decreases raw.len(),
{
    if raw.len() == 0 {
        assert(acc + raw =~= acc);
    } else {
        let b = raw[0];
        let rest = raw.drop_first();
        lemma_holds_split(s, pos, escape_byte(b), escape(rest));
        lemma_holds_first(s, pos, escape_byte(b));
        if b == SENTINEL || b == ESCAPE {
            assert(s.subrange(pos, pos + 2)[1] == s[pos + 1]);
        }
        lemma_unescape_counted(s, pos + escape_byte(b).len(), rest, acc.push(b));
        assert(acc.push(b) + rest =~= acc + raw);
    }
}

/// Reading the escaped form of `raw` and the sentinel behind it gives `raw` back.
pub proof fn lemma_unescape_terminated(s: Seq<u8>, pos: int, raw: Seq<u8>, acc: Seq<u8>)
    requires
        holds_at(s, pos, escape(raw) + seq![SENTINEL]),
    ensures
        unescape_terminated(s, pos, acc) == Ok::<(Seq<u8>, int), Failure>(
            (acc + raw, pos + escape(raw).len() + 1),
        ),
    decreases raw.len(),
{
    if raw.len() == 0 {
        assert(acc + raw =~= acc);
        lemma_holds_first(s, pos, escape(raw) + seq![SENTINEL]);
    } else {
        let b = raw[0];
        let rest = raw.drop_first();
        assert(escape(raw) + seq![SENTINEL] =~= escape_byte(b) + (escape(rest) + seq![SENTINEL]));
        lemma_holds_split(s, pos, escape_byte(b), escape(rest) + seq![SENTINEL]);
        lemma_holds_first(s, pos, escape_byte(b));
        if b == SENTINEL || b == ESCAPE {
            assert(s.subrange(pos, pos + 2)[1] == s[pos + 1]);
        }
        lemma_unescape_terminated(s, pos + escape_byte(b).len(), rest, acc.push(b));
        assert(acc.push(b) + rest =~= acc + raw);
    }
}

/// Reading an encoded counted string gives the string back.
pub proof fn lemma_read_text(s: Seq<u8>, pos: int, chars: Seq<char>)
    requires
        text_fits(chars),
        holds_at(s, pos, wire_text(chars)),
    ensures
        read_text(s, pos) == Ok::<(Seq<char>, int), Failure>((chars, pos + wire_text(chars).len())),
{
    let raw = encode_utf8(chars);
    lemma_holds_split(s, pos, seq![raw.len() as u8], escape(raw));
    lemma_holds_first(s, pos, seq![raw.len() as u8]);
    lemma_unescape_counted(s, pos + 1, raw, Seq::<u8>::empty());
    assert(Seq::<u8>::empty() + raw =~= raw);
    encode_utf8_valid_utf8(chars);
    encode_utf8_decode_utf8(chars);
}

/// Reading an encoded free-form string gives the string back.
pub proof fn lemma_read_free_text(s: Seq<u8>, pos: int, chars: Seq<char>)
    requires
        holds_at(s, pos, wire_free_text(chars)),
    ensures
        read_free_text(s, pos) == Ok::<(Seq<char>, int), Failure>(
            (chars, pos + wire_free_text(chars).len()),
        ),
{
    let raw = encode_utf8(chars);
    lemma_unescape_terminated(s, pos, raw, Seq::<u8>::empty());
    assert(Seq::<u8>::empty() + raw =~= raw);
    encode_utf8_valid_utf8(chars);
    encode_utf8_decode_utf8(chars);
}

/// Whether two strings hold the same characters.
#[verifier::loop_isolation(false)]
pub fn text_eq(a: &str, b: &str) -> (r: bool)
    ensures
        r == (a@ == b@),
{
    let x = a.as_bytes();
    let y = b.as_bytes();
    proof {
        encode_utf8_decode_utf8(a@);
        encode_utf8_decode_utf8(b@);
    }
    if x.len() != y.len() {
        return false;
    }
    let mut i: usize = 0;
    while i < x.len()
        invariant
            i <= x.len(),
            x.len() == y.len(),
            forall|j: int| 0 <= j < i ==> x@[j] == y@[j],
        decreases x.len() - i,
    {
        if x[i] != y[i] {
            return false;
        }
        i += 1;
    }
    assert(x@ =~= y@);
    true
}

/// Where a byte and then a byte string stand at `pos`, the byte is there and
/// the string stands behind it.
pub proof fn lemma_holds_tag(s: Seq<u8>, pos: int, tag: u8, rest: Seq<u8>)
    requires
        holds_at(s, pos, seq![tag] + rest),
    ensures
        0 <= pos < s.len(),
        s[pos] == tag,
        holds_at(s, pos + 1, rest),
{
    lemma_holds_split(s, pos, seq![tag], rest);
    lemma_holds_first(s, pos, seq![tag]);
}

/// The bytes of some nodes, one behind the other; nothing where one of them
/// cannot be written.
pub open spec fn wire_all<T: Compilable>(items: Seq<T>) -> Option<Seq<u8>>
    decreases items.len(),
{
    if items.len() == 0 {
        Some(Seq::<u8>::empty())
    } else {
        prefixed(
            match items[0].wire() {
                Some(w) => Some(w),
                None => None,
            },
            wire_all(items.drop_first()),
        )
    }
}

/// Two byte strings one behind the other, where both are there.
pub open spec fn prefixed(a: Option<Seq<u8>>, b: Option<Seq<u8>>) -> Option<Seq<u8>> {
    match (a, b) {
        (Some(x), Some(y)) => Some(x + y),
        _ => None,
    }
}

/// The bytes of a list of nodes: their number, then each in turn; nothing
/// where the list has over 255 members or one of them cannot be written.
pub open spec fn wire_slice<T: Compilable>(items: Seq<T>) -> Option<Seq<u8>> {
    if items.len() > 255 {
        None
    } else {
        prefixed(Some(seq![items.len() as u8]), wire_all(items))
    }
}

/// Appends a counted list of nodes to `buffer`.
#[verifier::loop_isolation(false)]
pub fn compile_slice<T: Compilable>(buffer: Vec<u8>, slice: &[T]) -> (r: CompileResult)
    ensures
        compiled(r, buffer@, wire_slice(slice@)),
{
    if slice.len() > 255 {
        return Err(());
    }
    let ghost items = slice@;
    let mut out = buffer;
    out.push(slice.len() as u8);
    let ghost head = out@;
    let mut i: usize = 0;
    assert(items.skip(0) =~= items);
    while i < slice.len()
        invariant
            i <= slice.len(),
            prefixed(Some(head), wire_all(items)) == prefixed(Some(out@), wire_all(items.skip(i as int))),
        decreases slice.len() - i,
    {
        proof {
            let rest = items.skip(i as int);
            assert(rest.drop_first() =~= items.skip(i + 1));
            assert(rest[0] == items[i as int]);
        }
        let ghost before = out@;
        out = match slice[i].compile_bytecode(out) {
            Ok(b) => b,
            Err(e) => {
                return Err(e);
            },
        };
        proof {
            let w = items[i as int].wire().unwrap();
            match wire_all(items.skip(i + 1)) {
                Some(t) => {
                    assert(before + (w + t) =~= (before + w) + t);
                },
                None => {},
            }
        }
        i += 1;
    }
    proof {
        assert(items.skip(items.len() as int) =~= Seq::<T>::empty());
        assert(out@ + Seq::<u8>::empty() =~= out@);
        match wire_all(items) {
            Some(w) => {
                assert(buffer@ + (seq![items.len() as u8] + w) =~= head + w);
            },
            None => {},
        }
    }
    Ok(out)
}

impl<T: Compilable> Compilable for Vec<T> {
    open spec fn wire(&self) -> Option<Seq<u8>> {
        wire_slice(self@)
    }

    fn compile_bytecode(&self, buffer: Vec<u8>) -> (r: CompileResult) {
        compile_slice(buffer, self.as_slice())
    }
}

impl Compilable for u16 {
    open spec fn wire(&self) -> Option<Seq<u8>> {
        Some(seq![(*self / 256) as u8, (*self % 256) as u8])
    }

    fn compile_bytecode(&self, buffer: Vec<u8>) -> (r: CompileResult) {
        let mut out = buffer;
        out.push((*self / 256) as u8);
        out.push((*self % 256) as u8);
        assert(out@ =~= buffer@ + seq![(*self / 256) as u8, (*self % 256) as u8]);
        Ok(out)
    }
}

impl Compilable for String {
    open spec fn wire(&self) -> Option<Seq<u8>> {
        if text_fits(self@) {
            Some(wire_text(self@))
        } else {
            None
        }
    }

    fn compile_bytecode(&self, buffer: Vec<u8>) -> (r: CompileResult) {
        compile_text(buffer, self.as_str())
    }
}

} // verus!
