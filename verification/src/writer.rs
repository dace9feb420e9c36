//! The serialization sink: an append-only byte buffer with an active
//! codepage and a scratch map for cross-reference patching.  Primitive,
//! raw-byte and string writes are built on the encoding engine of
//! [`crate::codepage`].

use vstd::prelude::*;

use crate::codepage::{
    can_encode_with, detect_codepage, detected, encodable, encode_text, encoding_of,
    first_zero_index, lemma_first_zero_index, zero_trunc, Codepage,
};

verus! {

/// The failure kinds of the writer: text that the attempted codepages
/// cannot represent, and a value that does not fit its on-disk type.
#[derive(Clone, Copy, Debug, PartialEq, Eq, Structural)]
pub enum WriteError {
    /// No attempted codepage could represent the text losslessly.
    Encoding,
    /// A value could not be represented exactly in the target type.
    Conversion,
}

impl WriteError {
    /// The descriptive message carried by this error.
    pub fn message(&self) -> (r: String)
        ensures
            *self == WriteError::Encoding ==> r@ == "Invalid String Encoding"@,
            *self == WriteError::Conversion ==> r@ == "Invalid Save Conversion"@,
    {
        match self {
            WriteError::Encoding => "Invalid String Encoding".to_owned(),
            WriteError::Conversion => "Invalid Save Conversion".to_owned(),
        }
    }
}

/// Scratch space for cross-reference patching performed by external
/// serializers; the writer core itself never reads or writes it.
#[verifier::external_body]
pub struct Context {
    /// Mapping from 64-bit keys to 64-bit values, free for serializers to use.
    pub map: hashbrown::HashMap<u64, u64>,
}

impl Context {
    /// Relies on `hashbrown::HashMap::new` to create the empty scratch map;
    /// nothing is claimed of the map, which this crate never consults.
    #[verifier::external_body]
    pub(crate) fn new() -> (r: Context) {
        Context { map: hashbrown::HashMap::new() }
    }
}

/// The bytes of `v` in little-endian order.
pub open spec fn u16_le_bytes(v: u16) -> Seq<u8> {
    seq![(v % 256) as u8, ((v / 256) % 256) as u8]
}

/// The bytes of `v` in little-endian order.
pub open spec fn u32_le_bytes(v: u32) -> Seq<u8> {
    seq![
        (v % 256) as u8,
        ((v / 256) % 256) as u8,
        ((v / 65536) % 256) as u8,
        ((v / 16777216) % 256) as u8,
    ]
}

/// The bytes of `v` in little-endian order.
pub open spec fn u64_le_bytes(v: u64) -> Seq<u8> {
    seq![
        (v % 256) as u8,
        ((v / 256) % 256) as u8,
        ((v / 65536) % 256) as u8,
        ((v / 16777216) % 256) as u8,
        ((v / 0x1_0000_0000) % 256) as u8,
        ((v / 0x100_0000_0000) % 256) as u8,
        ((v / 0x1_0000_0000_0000) % 256) as u8,
        ((v / 0x100_0000_0000_0000) % 256) as u8,
    ]
}

/// The fixed 5-byte on-disk form of empty text: length 1, then the lone
/// zero terminator.
pub open spec fn empty_string_form() -> Seq<u8> {
    seq![1u8, 0u8, 0u8, 0u8, 0u8]
}

/// What a strict string write appends for nonempty encodable `text`: when
/// the encoded bytes hold an embedded zero at index `i`, a length field of
/// `i` and the bytes before the zero; otherwise the full length plus one,
/// the bytes, and a zero terminator.
pub open spec fn strict_string_output(cp: Codepage, text: Seq<char>) -> Seq<u8> {
    let b = encoding_of(cp, text);
    let i = first_zero_index(b);
    if i < b.len() {
        u32_le_bytes(i as u32) + b.take(i)
    } else {
        u32_le_bytes((b.len() + 1) as u32) + b + seq![0u8]
    }
}

/// The length field of a strict string write fits in 32 bits.
pub open spec fn strict_string_fits(cp: Codepage, text: Seq<char>) -> bool {
    let b = encoding_of(cp, text);
    let i = first_zero_index(b);
    if i < b.len() {
        i <= 0xFFFF_FFFF
    } else {
        b.len() + 1 <= 0xFFFF_FFFF
    }
}

/// What an auto string write appends for nonempty `text` under the
/// detected codepage: the truncated encoding's length plus one, the
/// truncated bytes, and a zero terminator.
pub open spec fn auto_string_output(cp: Codepage, text: Seq<char>) -> Seq<u8> {
    let t = zero_trunc(encoding_of(cp, text));
    u32_le_bytes((t.len() + 1) as u32) + t + seq![0u8]
}

/// The length field of an auto string write fits in 32 bits.
pub open spec fn auto_string_fits(cp: Codepage, text: Seq<char>) -> bool {
    zero_trunc(encoding_of(cp, text)).len() + 1 <= 0xFFFF_FFFF
}

/// An append-only byte sink with an active codepage and an auxiliary
/// scratch map.  Every successful write appends to `buffer`; bytes already
/// written are never rolled back.
pub struct Writer {
    /// The output buffer; the append position is its length.
    pub buffer: Vec<u8>,
    /// Opaque cross-reference scratch space for external serializers.
    pub context: Context,
    /// The active codepage, used by the string writes.
    pub encoding: Codepage,
}

/// The self-serialization capability: a type that knows its own fixed
/// binary layout and appends it to a [`Writer`].
pub trait Save {
    /// The bytes this value serializes to.
    spec fn saved(&self) -> Seq<u8>;

    /// Whether serialization of this value succeeds.
    spec fn savable(&self) -> bool;

    /// Append this value's binary form to `writer`.
    fn save(&self, writer: &mut Writer) -> (r: Result<(), WriteError>)
        ensures
            r is Ok <==> self.savable(),
            r is Ok ==> final(writer).buffer@ == old(writer).buffer@ + self.saved(),
    ;
}

/// A checked conversion into a savable on-disk type: succeeds exactly when
/// the value is representable in `Self`.
pub trait SaveConversion<T>: Sized {
    /// Whether `v` is exactly representable in `Self`.
    spec fn convertible(v: T) -> bool;

    /// The converted value, meaningful when `convertible(v)` holds.
    spec fn converted(v: T) -> Self;

    /// Convert `v`, or report that it does not fit.
    fn convert(v: T) -> (r: Option<Self>)
        ensures
            r is Some <==> Self::convertible(v),
            r is Some ==> r->0 == Self::converted(v),
    ;
}

impl Save for u8 {
    open spec fn saved(&self) -> Seq<u8> {
        seq![*self]
    }

    open spec fn savable(&self) -> bool {
        true
    }

    fn save(&self, writer: &mut Writer) -> (r: Result<(), WriteError>) {
        writer.buffer.push(*self);
        proof {
            assert(writer.buffer@ =~= old(writer).buffer@ + self.saved());
        }
        Ok(())
    }
}

impl Save for u16 {
    open spec fn saved(&self) -> Seq<u8> {
        u16_le_bytes(*self)
    }

    open spec fn savable(&self) -> bool {
        true
    }

    fn save(&self, writer: &mut Writer) -> (r: Result<(), WriteError>) {
        let v = *self;
        writer.buffer.push((v % 256) as u8);
        writer.buffer.push(((v / 256) % 256) as u8);
        proof {
            assert(writer.buffer@ =~= old(writer).buffer@ + self.saved());
        }
        Ok(())
    }
}

impl Save for u32 {
    open spec fn saved(&self) -> Seq<u8> {
        u32_le_bytes(*self)
    }

    open spec fn savable(&self) -> bool {
        true
    }

    fn save(&self, writer: &mut Writer) -> (r: Result<(), WriteError>) {
        writer.push_u32_le(*self);
        Ok(())
    }
}

impl Save for u64 {
    open spec fn saved(&self) -> Seq<u8> {
        u64_le_bytes(*self)
    }

    open spec fn savable(&self) -> bool {
        true
    }

    fn save(&self, writer: &mut Writer) -> (r: Result<(), WriteError>) {
        let v = *self;
        writer.buffer.push((v % 256) as u8);
        writer.buffer.push(((v / 256) % 256) as u8);
        writer.buffer.push(((v / 65536) % 256) as u8);
        writer.buffer.push(((v / 16777216) % 256) as u8);
        writer.buffer.push(((v / 0x1_0000_0000) % 256) as u8);
        writer.buffer.push(((v / 0x100_0000_0000) % 256) as u8);
        writer.buffer.push(((v / 0x1_0000_0000_0000) % 256) as u8);
        writer.buffer.push(((v / 0x100_0000_0000_0000) % 256) as u8);
        proof {
            assert(writer.buffer@ =~= old(writer).buffer@ + self.saved());
        }
        Ok(())
    }
}

impl SaveConversion<usize> for u32 {
    open spec fn convertible(v: usize) -> bool {
        v <= 0xFFFF_FFFF
    }

    open spec fn converted(v: usize) -> u32 {
        v as u32
    }

    fn convert(v: usize) -> (r: Option<u32>) {
        if v as u64 <= 0xFFFF_FFFFu64 {
            Some(v as u32)
        } else {
            None
        }
    }
}

impl Default for Writer {
    /// An empty writer with the Western European codepage active.
    fn default() -> (r: Writer)
        ensures
            r.buffer@ == Seq::<u8>::empty(),
            r.encoding == Codepage::Windows1252,
    {
        Writer::new(Vec::new())
    }
}

impl Writer {
    /// A writer over `bytes` with the Western European codepage active.
    pub fn new(bytes: Vec<u8>) -> (r: Self)
        ensures
            r.buffer@ == bytes@,
            r.encoding == Codepage::Windows1252,
    {
        Writer { buffer: bytes, context: Context::new(), encoding: Codepage::Windows1252 }
    }

    /// A writer over `bytes` with the Western European codepage active.
    pub fn new_windows_1252(bytes: Vec<u8>) -> (r: Self)
        ensures
            r.buffer@ == bytes@,
            r.encoding == Codepage::Windows1252,
    {
        Writer { buffer: bytes, context: Context::new(), encoding: Codepage::Windows1252 }
    }

    /// A writer over `bytes` with the Central European codepage active.
    pub fn new_windows_1250(bytes: Vec<u8>) -> (r: Self)
        ensures
            r.buffer@ == bytes@,
            r.encoding == Codepage::Windows1250,
    {
        Writer { buffer: bytes, context: Context::new(), encoding: Codepage::Windows1250 }
    }

    /// A writer over `bytes` with the Cyrillic codepage active.
    pub fn new_windows_1251(bytes: Vec<u8>) -> (r: Self)
        ensures
            r.buffer@ == bytes@,
            r.encoding == Codepage::Windows1251,
    {
        Writer { buffer: bytes, context: Context::new(), encoding: Codepage::Windows1251 }
    }

    /// Make the Western European codepage active.
    pub fn set_windows_1252(&mut self)
        ensures
            final(self).encoding == Codepage::Windows1252,
            final(self).buffer@ == old(self).buffer@,
            final(self).context == old(self).context,
    {
        self.encoding = Codepage::Windows1252;
    }

    /// Make the Central European codepage active.
    pub fn set_windows_1250(&mut self)
        ensures
            final(self).encoding == Codepage::Windows1250,
            final(self).buffer@ == old(self).buffer@,
            final(self).context == old(self).context,
    {
        self.encoding = Codepage::Windows1250;
    }

    /// Make the Cyrillic codepage active.
    pub fn set_windows_1251(&mut self)
        ensures
            final(self).encoding == Codepage::Windows1251,
            final(self).buffer@ == old(self).buffer@,
            final(self).context == old(self).context,
    {
        self.encoding = Codepage::Windows1251;
    }

    /// Detect the best codepage for `text` along the fallback chain and
    /// make it active.  Returns the selected codepage.
    pub fn auto_set_encoding(&mut self, text: &str) -> (r: Codepage)
        ensures
            r == detected(old(self).encoding, text@),
            final(self).encoding == r,
            final(self).buffer@ == old(self).buffer@,
            final(self).context == old(self).context,
    {
        let best = detect_codepage(self.encoding, text);
        self.encoding = best;
        best
    }

    /// An error result carrying `e`, for serializers to report failures
    /// through.
    pub fn error(e: WriteError) -> (r: Result<(), WriteError>)
        ensures
            r == Err::<(), WriteError>(e),
    {
        Err(e)
    }

    /// Append the binary form of `value`.
    pub fn save<S: Save>(&mut self, value: &S) -> (r: Result<(), WriteError>)
        ensures
            r is Ok <==> value.savable(),
            r is Ok ==> final(self).buffer@ == old(self).buffer@ + value.saved(),
    {
        value.save(self)
    }

    /// Convert `value` exactly into the on-disk type `S` and append it;
    /// fails with a conversion error when `value` does not fit.
    pub fn save_as<T, S: Save + SaveConversion<T>>(&mut self, value: T) -> (r: Result<
        (),
        WriteError,
    >)
        ensures
            !S::convertible(value) ==> r == Err::<(), WriteError>(WriteError::Conversion)
                && final(self).buffer@ == old(self).buffer@ && final(self).encoding == old(self).encoding && final(self).context == old(self).context,
            S::convertible(value) ==> (r is Ok <==> S::converted(value).savable()) && (r is Ok
                ==> final(self).buffer@ == old(self).buffer@ + S::converted(value).saved()),
    {
        match S::convert(value) {
            Some(v) => v.save(self),
            None => Self::error(WriteError::Conversion),
        }
    }

    /// Append `bytes` verbatim: no length prefix, no interpretation.
    pub fn save_bytes(&mut self, bytes: &[u8]) -> (r: Result<(), WriteError>)
        ensures
            r is Ok,
            final(self).buffer@ == old(self).buffer@ + bytes@,
            final(self).encoding == old(self).encoding,
            final(self).context == old(self).context,
    {
        let ghost base = self.buffer@;
        let n = bytes.len();
        for k in 0..n
            invariant
                n == bytes@.len(),
                self.buffer@ == base + bytes@.take(k as int),
                self.encoding == old(self).encoding,
                self.context == old(self).context,
        {
            self.buffer.push(bytes[k]);
            proof {
                assert(self.buffer@ =~= base + bytes@.take(k + 1));
            }
        }
        proof {
            assert(base + bytes@.take(n as int) =~= base + bytes@);
        }
        Ok(())
    }

    /// Append the first `n` bytes of `bytes`.
    fn append_prefix(&mut self, bytes: &Vec<u8>, n: usize)
        requires
            n <= bytes@.len(),
        ensures
            final(self).buffer@ == old(self).buffer@ + bytes@.take(n as int),
            final(self).encoding == old(self).encoding,
            final(self).context == old(self).context,
    {
        let ghost base = self.buffer@;
        for k in 0..n
            invariant
                n <= bytes@.len(),
                self.buffer@ == base + bytes@.take(k as int),
                self.encoding == old(self).encoding,
                self.context == old(self).context,
        {
            self.buffer.push(bytes[k]);
            proof {
                assert(self.buffer@ =~= base + bytes@.take(k + 1));
            }
        }
    }

    /// Append the little-endian bytes of `v`.
    fn push_u32_le(&mut self, v: u32)
        ensures
            final(self).buffer@ == old(self).buffer@ + u32_le_bytes(v),
            final(self).encoding == old(self).encoding,
            final(self).context == old(self).context,
    {
        self.buffer.push((v % 256) as u8);
        self.buffer.push(((v / 256) % 256) as u8);
        self.buffer.push(((v / 65536) % 256) as u8);
        self.buffer.push(((v / 16777216) % 256) as u8);
        proof {
            assert(self.buffer@ =~= old(self).buffer@ + u32_le_bytes(v));
        }
    }

    /// Write `value` in the on-disk string form using the active codepage,
    /// failing immediately when that codepage is lossy for it.  Empty text
    /// takes the fixed 5-byte form; encoded bytes are cut at an embedded
    /// zero, which then serves as the terminator position.
    pub fn save_string(&mut self, value: &str) -> (r: Result<(), WriteError>)
        ensures
            final(self).encoding == old(self).encoding,
            final(self).context == old(self).context,
            value@.len() == 0 ==> r is Ok && final(self).buffer@ == old(self).buffer@
                + empty_string_form(),
            value@.len() > 0 && !encodable(old(self).encoding, value@) ==> r == Err::<
                (),
                WriteError,
            >(WriteError::Encoding) && final(self).buffer@ == old(self).buffer@,
            value@.len() > 0 && encodable(old(self).encoding, value@) && strict_string_fits(
                old(self).encoding,
                value@,
            ) ==> r is Ok && final(self).buffer@ == old(self).buffer@ + strict_string_output(
                old(self).encoding,
                value@,
            ),
            value@.len() > 0 && encodable(old(self).encoding, value@) && !strict_string_fits(
                old(self).encoding,
                value@,
            ) ==> r == Err::<(), WriteError>(WriteError::Conversion) && final(self).buffer@ == old(self).buffer@,
    {
        if value.is_empty() {
            self.push_u32_le(1);
            self.buffer.push(0);
            proof {
                assert(self.buffer@ =~= old(self).buffer@ + empty_string_form());
            }
            return Ok(());
        }
        match encode_text(self.encoding, value) {
            None => Err(WriteError::Encoding),
            Some(enc) => {
                let ghost b = enc@;
                proof {
                    lemma_first_zero_index(b);
                }
                let full_len = enc.len();
                let t = crate::codepage::truncate_at_zero(enc);
                if t.len() < full_len {
                    // embedded zero: its index is the length field, and the
                    // zero-free prefix is the payload, with no terminator
                    if t.len() as u64 > 0xFFFF_FFFFu64 {
                        return Err(WriteError::Conversion);
                    }
                    self.push_u32_le(t.len() as u32);
                    let tn = t.len();
                    self.append_prefix(&t, tn);
                    proof {
                        assert(t@.take(t@.len() as int) =~= t@);
                        assert(self.buffer@ =~= old(self).buffer@ + strict_string_output(
                            old(self).encoding,
                            value@,
                        ));
                    }
                    Ok(())
                } else {
                    proof {
                        assert(first_zero_index(b) == b.len());
                        assert(t@ =~= b);
                    }
                    if full_len as u64 > 0xFFFF_FFFEu64 {
                        return Err(WriteError::Conversion);
                    }
                    self.push_u32_le((full_len as u64 + 1) as u32);
                    self.append_prefix(&t, full_len);
                    self.buffer.push(0);
                    proof {
                        assert(t@.take(t@.len() as int) =~= t@);
                        assert(self.buffer@ =~= old(self).buffer@ + strict_string_output(
                            old(self).encoding,
                            value@,
                        ));
                    }
                    Ok(())
                }
            },
        }
    }

    /// Write `value` in the on-disk string form after detecting the best
    /// codepage along the fallback chain; when detection picks a different
    /// codepage, it becomes the active one.  Fails only when no codepage
    /// can represent the text.
    pub fn save_string_auto(&mut self, value: &str) -> (r: Result<(), WriteError>)
        ensures
            final(self).context == old(self).context,
            value@.len() == 0 ==> r is Ok && final(self).encoding == old(self).encoding && final(self).buffer@ == old(self).buffer@ + empty_string_form(),
            value@.len() > 0 && !encodable(detected(old(self).encoding, value@), value@) ==> r
                == Err::<(), WriteError>(WriteError::Encoding) && final(self).encoding == old(self).encoding && final(self).buffer@ == old(self).buffer@,
            value@.len() > 0 && encodable(detected(old(self).encoding, value@), value@)
                && auto_string_fits(detected(old(self).encoding, value@), value@) ==> r is Ok
                && final(self).encoding == detected(old(self).encoding, value@) && final(self).buffer@ == old(self).buffer@ + auto_string_output(
                detected(old(self).encoding, value@),
                value@,
            ),
            value@.len() > 0 && encodable(detected(old(self).encoding, value@), value@)
                && !auto_string_fits(detected(old(self).encoding, value@), value@) ==> r == Err::<
                (),
                WriteError,
            >(WriteError::Conversion) && final(self).encoding == detected(
                old(self).encoding,
                value@,
            ) && final(self).buffer@ == old(self).buffer@,
    {
        if value.is_empty() {
            self.push_u32_le(1);
            self.buffer.push(0);
            proof {
                assert(self.buffer@ =~= old(self).buffer@ + empty_string_form());
            }
            return Ok(());
        }
        let best = detect_codepage(self.encoding, value);
        match encode_text(best, value) {
            None => Err(WriteError::Encoding),
            Some(enc) => {
                self.encoding = best;
                let ghost b = enc@;
                proof {
                    lemma_first_zero_index(b);
                }
                let t = crate::codepage::truncate_at_zero(enc);
                if t.len() as u64 > 0xFFFF_FFFEu64 {
                    return Err(WriteError::Conversion);
                }
                self.push_u32_le((t.len() as u64 + 1) as u32);
                let tn = t.len();
                self.append_prefix(&t, tn);
                self.buffer.push(0);
                proof {
                    assert(t@.take(t@.len() as int) =~= t@);
                    assert(self.buffer@ =~= old(self).buffer@ + auto_string_output(best, value@));
                }
                Ok(())
            },
        }
    }

    /// Encode `text` with the best codepage along the fallback chain,
    /// without touching the writer: the truncated bytes and the codepage
    /// used, or an encoding error when none fits.
    pub fn encode_with_best_fit(&self, text: &str) -> (r: Result<(Vec<u8>, Codepage), WriteError>)
        ensures
            encodable(detected(self.encoding, text@), text@) ==> r is Ok && r->Ok_0.0@
                == zero_trunc(encoding_of(detected(self.encoding, text@), text@)) && r->Ok_0.1
                == detected(self.encoding, text@),
            !encodable(detected(self.encoding, text@), text@) ==> r == Err::<
                (Vec<u8>, Codepage),
                WriteError,
            >(WriteError::Encoding),
    {
        let best = detect_codepage(self.encoding, text);
        match encode_text(best, text) {
            Some(enc) => Ok((crate::codepage::truncate_at_zero(enc), best)),
            None => Err(WriteError::Encoding),
        }
    }

    /// Encode `text` with the active codepage, without touching the
    /// writer: the truncated bytes, or an encoding error when lossy.
    pub fn encode(&self, text: &str) -> (r: Result<Vec<u8>, WriteError>)
        ensures
            encodable(self.encoding, text@) ==> r is Ok && r->Ok_0@ == zero_trunc(
                encoding_of(self.encoding, text@),
            ),
            !encodable(self.encoding, text@) ==> r == Err::<Vec<u8>, WriteError>(
                WriteError::Encoding,
            ),
    {
        match encode_text(self.encoding, text) {
            Some(enc) => Ok(crate::codepage::truncate_at_zero(enc)),
            None => Err(WriteError::Encoding),
        }
    }

    /// The name of the active codepage.
    pub fn encoding_name(&self) -> (r: String)
        ensures
            self.encoding == Codepage::Windows1252 ==> r@ == "windows-1252"@,
            self.encoding == Codepage::Windows1250 ==> r@ == "windows-1250"@,
            self.encoding == Codepage::Windows1251 ==> r@ == "windows-1251"@,
    {
        match self.encoding {
            Codepage::Windows1252 => "windows-1252".to_owned(),
            Codepage::Windows1250 => "windows-1250".to_owned(),
            Codepage::Windows1251 => "windows-1251".to_owned(),
        }
    }

    /// Whether the active codepage represents `text` losslessly.
    pub fn can_encode(&self, text: &str) -> (r: bool)
        ensures
            r == encodable(self.encoding, text@),
    {
        can_encode_with(self.encoding, text)
    }
}

} // verus!
